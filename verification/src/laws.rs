//! The general guarantees of the simulation core, stated and proved once
//! over the transition relation `advance_rel` rather than per call site.

use vstd::prelude::*;

use crate::game::{
    advance_rel, candidate_pos, eats_fruit, grows_this_tick, hits_wall,
    requested_after, self_collides, spec_tick_reason, EndReason, GameState, TickOutcome,
};
use crate::geometry::{pos_in_bounds, spec_step, Direction, Position};

verus! {

/// Every tick leaves the state well formed; in particular the snake's
/// segments stay pairwise distinct and on the grid.
pub proof fn lemma_advance_preserves_wf(
    pre: GameState,
    d: Direction,
    post: GameState,
    r: TickOutcome,
)
    requires
        pre.wf(),
        advance_rel(pre, d, post, r),
    ensures
        post.wf(),
{
    if d == Direction::Still {
        assert(post == pre);
    } else {
        match spec_tick_reason(pre, d) {
            Some(_reason) => {
                assert(post.snake@ == pre.snake@);
                assert forall|i: int| 0 <= i < post.snake@.len() implies pos_in_bounds(
                    #[trigger] post.snake@[i],
                    post.width,
                    post.height,
                ) by {
                    assert(post.snake@[i] == pre.snake@[i]);
                }
            },
            None => {
                let cand = candidate_pos(pre, d);
                let body = if grows_this_tick(pre, d) {
                    pre.snake@
                } else {
                    pre.snake@.drop_last()
                };
                assert(post.snake@ == seq![cand] + body);
                assert(post.snake@.len() == 1 + body.len());
                assert(pos_in_bounds(cand, pre.width, pre.height)) by {
                    if !pre.wrap_around {
                        assert(!hits_wall(pre, d));
                    }
                }
                assert(!self_collides(pre, d));
                assert(!body.contains(cand));
                assert forall|i: int, j: int|
                    0 <= i < post.snake@.len() && 0 <= j < post.snake@.len() && i != j implies
                    post.snake@[i] != post.snake@[j] by {
                    if i == 0 {
                        assert(post.snake@[j] == body[j - 1]);
                        if body[j - 1] == cand {
                            assert(body.contains(cand));
                        }
                    } else if j == 0 {
                        assert(post.snake@[i] == body[i - 1]);
                        if body[i - 1] == cand {
                            assert(body.contains(cand));
                        }
                    } else {
                        assert(post.snake@[i] == body[i - 1]);
                        assert(post.snake@[j] == body[j - 1]);
                        assert(body[i - 1] == pre.snake@[i - 1]);
                        assert(body[j - 1] == pre.snake@[j - 1]);
                    }
                }
                assert(post.snake@.no_duplicates());
                assert forall|i: int| 0 <= i < post.snake@.len() implies pos_in_bounds(
                    #[trigger] post.snake@[i],
                    post.width,
                    post.height,
                ) by {
                    if i > 0 {
                        assert(post.snake@[i] == body[i - 1]);
                        assert(body[i - 1] == pre.snake@[i - 1]);
                    }
                }
            },
        }
    }
}

/// A tick never shrinks the snake: its length is unchanged or grows by
/// exactly one.
pub proof fn lemma_advance_len_change(pre: GameState, d: Direction, post: GameState, r: TickOutcome)
    requires
        pre.wf(),
        advance_rel(pre, d, post, r),
    ensures
        post.snake@.len() == pre.snake@.len() || post.snake@.len() == pre.snake@.len() + 1,
{
    if d != Direction::Still {
        match spec_tick_reason(pre, d) {
            Some(_reason) => {},
            None => {
                if !grows_this_tick(pre, d) {
                    assert(post.snake@.len() == 1 + pre.snake@.drop_last().len());
                }
            },
        }
    }
}

/// The reversal guard: with `Up` committed, a request for `Down` leaves
/// the buffered direction alone, while `Left` and `Right` replace it.
pub proof fn lemma_reversal_guard(s: GameState)
    requires
        s.committed_direction == Direction::Up,
    ensures
        requested_after(s, Direction::Down) == s.requested_direction,
        requested_after(s, Direction::Left) == Direction::Left,
        requested_after(s, Direction::Right) == Direction::Right,
{
}

/// Wrap-around at the right edge: a head on the last column moving
/// `Right` re-enters at column zero, same row.
pub proof fn lemma_wrap_right_edge(pre: GameState, post: GameState, r: TickOutcome)
    requires
        pre.wf(),
        pre.wrap_around,
        pre.snake@[0].x == pre.width - 1,
        advance_rel(pre, Direction::Right, post, r),
        spec_tick_reason(pre, Direction::Right) is None,
    ensures
        r == TickOutcome::Continued,
        post.snake@[0] == (Position { x: 0, y: pre.snake@[0].y }),
{
    assert(pos_in_bounds(pre.snake@[0], pre.width, pre.height));
    assert(spec_step(pre.snake@[0], Direction::Right).x == pre.width);
    assert(candidate_pos(pre, Direction::Right) == (Position { x: 0, y: pre.snake@[0].y }));
}

/// Without wrap-around the same move is a wall collision, and the snake
/// is left exactly as it was.
pub proof fn lemma_wall_right_edge(pre: GameState, post: GameState, r: TickOutcome)
    requires
        pre.wf(),
        !pre.wrap_around,
        pre.snake@[0].x == pre.width - 1,
        advance_rel(pre, Direction::Right, post, r),
    ensures
        r == TickOutcome::Terminated(EndReason::WallCollision),
        post.snake@ == pre.snake@,
        post.game_over,
{
    assert(pos_in_bounds(pre.snake@[0], pre.width, pre.height));
    assert(spec_step(pre.snake@[0], Direction::Right).x == pre.width);
    assert(hits_wall(pre, Direction::Right));
}

/// Eating the fruit on a continuing tick raises the score by exactly one
/// and the snake's length by exactly one, with the pending growth left as
/// it was: the segment owed for this fruit is paid out the same tick by
/// keeping the tail.
pub proof fn lemma_fruit_consumption(
    pre: GameState,
    d: Direction,
    post: GameState,
    r: TickOutcome,
)
    requires
        pre.wf(),
        d != Direction::Still,
        eats_fruit(pre, d),
        advance_rel(pre, d, post, r),
        r == TickOutcome::Continued,
    ensures
        post.score == pre.score + 1,
        post.snake@.len() == pre.snake@.len() + 1,
        post.extensions == pre.extensions,
        !pre.snake@.contains(post.fruit_position),
{
    match spec_tick_reason(pre, d) {
        Some(_reason) => {
            assert(r != TickOutcome::Continued);
        },
        None => {
            assert(grows_this_tick(pre, d));
        },
    }
}

} // verus!
