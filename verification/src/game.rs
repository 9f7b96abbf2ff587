//! The game simulation core: snake movement, growth, collision handling
//! and fruit placement on a fixed rectangular grid.

use std::collections::VecDeque;
use std::ops::Index;
use vstd::prelude::*;
use vstd::set_lib::lemma_len_subset;

use crate::geometry::{pos_in_bounds, spec_allowed, spec_step, spec_wrap, Direction, Position};
use crate::laws::lemma_advance_preserves_wf;
use crate::rng::random_below;

verus! {

/// Largest accepted grid side; keeps every coordinate step and the cell
/// count comfortably inside the machine integer types.
pub const MAX_GRID_DIM: i16 = 256;

/// Why a tick ended the game.
#[derive(Clone, Copy, Debug, PartialEq, Eq, Structural)]
pub enum EndReason {
    WallCollision,
    SelfCollision,
    BoardFull,
}

/// The outcome of one tick: the game either goes on or has just ended.
#[derive(Clone, Copy, Debug, PartialEq, Eq, Structural)]
pub enum TickOutcome {
    Continued,
    Terminated(EndReason),
}

/// The whole state of one run.  The snake is an ordered double-ended
/// sequence of grid cells, head at the front, tail at the back.  The
/// presentation layer only reads these fields; every mutation goes
/// through the verified methods.
#[derive(Debug, Clone)]
pub struct GameState {
    pub snake: VecDeque<Position>,
    /// Body segments still owed to the snake from fruit already eaten;
    /// each tick that does not pop the tail consumes one.
    pub extensions: u32,
    pub fruit_position: Position,
    pub score: u32,
    /// Chosen once at startup: crossing a boundary either wraps to the
    /// opposite edge or ends the game.
    pub wrap_around: bool,
    pub game_over: bool,
    pub width: i16,
    pub height: i16,
    /// The last committed movement direction: the one the snake actually
    /// moved in.  Only this is consulted by the reversal guard.
    pub committed_direction: Direction,
    /// The buffered player request, applied at the next tick.
    pub requested_direction: Direction,
}

impl GameState {
    /// The grid dimensions lie in the accepted range.
    pub open spec fn dims_ok(self) -> bool {
        &&& 2 <= self.width <= MAX_GRID_DIM
        &&& 2 <= self.height <= MAX_GRID_DIM
    }

    /// Number of cells of the grid.
    pub open spec fn spec_area(self) -> int {
        self.width * self.height
    }

    /// Well-formedness: the snake is non-empty, its segments are pairwise
    /// distinct and on the grid, and the fruit is on the grid.
    pub open spec fn wf(self) -> bool {
        &&& self.dims_ok()
        &&& self.snake@.len() >= 1
        &&& self.snake@.no_duplicates()
        &&& forall|i: int|
            0 <= i < self.snake@.len() ==> pos_in_bounds(
                #[trigger] self.snake@[i],
                self.width,
                self.height,
            )
        &&& pos_in_bounds(self.fruit_position, self.width, self.height)
    }
}

/// What the buffered direction becomes after a request for `d`: the
/// request is taken unless the reversal guard rejects it.
pub open spec fn requested_after(s: GameState, d: Direction) -> Direction {
    if spec_allowed(s.committed_direction, d) {
        d
    } else {
        s.requested_direction
    }
}

/// The cell count of an accepted grid is at least four and fits easily
/// in the machine integer types.
pub proof fn lemma_area_bounds(w: i16, h: i16)
    requires
        2 <= w <= MAX_GRID_DIM,
        2 <= h <= MAX_GRID_DIM,
    ensures
        4 <= w * h <= 65536,
{
    assert(4 <= w * h <= 65536) by (nonlinear_arith)
        requires
            2 <= w <= 256,
            2 <= h <= 256,
    ;
}

/// The grid configuration is never changed by a tick.
pub open spec fn same_dims(a: GameState, b: GameState) -> bool {
    &&& a.width == b.width
    &&& a.height == b.height
    &&& a.wrap_around == b.wrap_around
}

/// The cell the head tries to enter this tick: one step in `d`, wrapped
/// to the opposite edge when wrap-around is enabled.
pub open spec fn candidate_pos(s: GameState, d: Direction) -> Position {
    if s.wrap_around {
        spec_wrap(spec_step(s.snake@[0], d), s.width, s.height)
    } else {
        spec_step(s.snake@[0], d)
    }
}

/// With wrap-around disabled, a step off the grid is a wall collision.
pub open spec fn hits_wall(s: GameState, d: Direction) -> bool {
    !s.wrap_around && !pos_in_bounds(spec_step(s.snake@[0], d), s.width, s.height)
}

/// The candidate head cell holds the fruit.
pub open spec fn eats_fruit(s: GameState, d: Direction) -> bool {
    candidate_pos(s, d) == s.fruit_position
}

/// The tail stays this tick: growth was already pending, or the fruit
/// eaten this very tick makes it pending.
pub open spec fn grows_this_tick(s: GameState, d: Direction) -> bool {
    s.extensions > 0 || eats_fruit(s, d)
}

/// After growing once more the snake would occupy every cell.
pub open spec fn board_would_fill(s: GameState) -> bool {
    s.snake@.len() + 1 >= s.spec_area()
}

/// The candidate head cell is already occupied by the body, not counting
/// the tail cell when the tail is about to be vacated this tick.
pub open spec fn self_collides(s: GameState, d: Direction) -> bool {
    if grows_this_tick(s, d) {
        s.snake@.contains(candidate_pos(s, d))
    } else {
        s.snake@.drop_last().contains(candidate_pos(s, d))
    }
}

/// The terminal condition of a tick in direction `d` (`d` not `Still`),
/// or `None` when the game goes on.
pub open spec fn spec_tick_reason(s: GameState, d: Direction) -> Option<EndReason> {
    if hits_wall(s, d) {
        Some(EndReason::WallCollision)
    } else if eats_fruit(s, d) && board_would_fill(s) {
        Some(EndReason::BoardFull)
    } else if self_collides(s, d) {
        Some(EndReason::SelfCollision)
    } else {
        None
    }
}

/// The full transition relation of `advance`: how the state after a tick
/// (`post`) and its outcome (`r`) relate to the state before it (`pre`).
/// The relocated fruit is the one value not pinned down exactly: it is
/// drawn at random, so only its freedom from the snake is stated.
pub open spec fn advance_rel(pre: GameState, d: Direction, post: GameState, r: TickOutcome) -> bool {
    &&& same_dims(pre, post)
    &&& if d == Direction::Still {
        &&& post == pre
        &&& r == TickOutcome::Continued
    } else {
        match spec_tick_reason(pre, d) {
            Some(reason) => {
                &&& r == TickOutcome::Terminated(reason)
                &&& post.game_over
                &&& post.snake@ == pre.snake@
                &&& post.score == pre.score + (if eats_fruit(pre, d) { 1int } else { 0int })
                &&& post.extensions == pre.extensions + (if eats_fruit(pre, d) { 1int } else { 0int })
                &&& if eats_fruit(pre, d) && reason == EndReason::SelfCollision {
                    &&& pos_in_bounds(post.fruit_position, pre.width, pre.height)
                    &&& !pre.snake@.contains(post.fruit_position)
                } else {
                    post.fruit_position == pre.fruit_position
                }
            },
            None => {
                &&& r == TickOutcome::Continued
                &&& post.game_over == pre.game_over
                &&& post.snake@ == seq![candidate_pos(pre, d)] + (if grows_this_tick(pre, d) {
                    pre.snake@
                } else {
                    pre.snake@.drop_last()
                })
                &&& post.score == pre.score + (if eats_fruit(pre, d) { 1int } else { 0int })
                &&& post.extensions == (if grows_this_tick(pre, d) {
                    pre.extensions + (if eats_fruit(pre, d) { 1int } else { 0int }) - 1
                } else {
                    0int
                })
                &&& if eats_fruit(pre, d) {
                    &&& pos_in_bounds(post.fruit_position, pre.width, pre.height)
                    &&& !pre.snake@.contains(post.fruit_position)
                } else {
                    post.fruit_position == pre.fruit_position
                }
            },
        }
    }
}

impl GameState {
    /// A fresh game on a `width` by `height` grid: a one-segment snake at
    /// the centre, two segments of growth pending, a fruit on a free
    /// cell, score zero.
    pub fn new(width: i16, height: i16, wrap_around: bool) -> (g: GameState)
        requires
            2 <= width <= MAX_GRID_DIM,
            2 <= height <= MAX_GRID_DIM,
        ensures
            g.wf(),
            g.width == width,
            g.height == height,
            g.wrap_around == wrap_around,
            g.snake@ =~= seq![(Position { x: (width / 2) as i16, y: (height / 2) as i16 })],
            g.extensions == 2,
            g.score == 0,
            !g.game_over,
            g.committed_direction == Direction::Still,
            g.requested_direction == Direction::Still,
            !g.snake@.contains(g.fruit_position),
    {
        let mut g = GameState {
            snake: VecDeque::new(),
            extensions: 2,
            fruit_position: Position::new(0, 0),
            score: 0,
            wrap_around,
            game_over: false,
            width,
            height,
            committed_direction: Direction::Still,
            requested_direction: Direction::Still,
        };
        g.reset();
        g
    }

    /// Back to the start of a run: a single segment at the centre, two
    /// growth segments owed, a fruit on a free cell, score zero, game on.
    pub fn reset(&mut self)
        requires
            old(self).dims_ok(),
        ensures
            final(self).wf(),
            final(self).width == old(self).width,
            final(self).height == old(self).height,
            final(self).wrap_around == old(self).wrap_around,
            final(self).snake@ =~= seq![
                (Position {
                    x: (old(self).width / 2) as i16,
                    y: (old(self).height / 2) as i16,
                }),
            ],
            final(self).extensions == 2,
            final(self).score == 0,
            !final(self).game_over,
            final(self).committed_direction == Direction::Still,
            final(self).requested_direction == Direction::Still,
            !final(self).snake@.contains(final(self).fruit_position),
    {
        self.snake.clear();
        let centre = Position::new(self.width / 2, self.height / 2);
        self.snake.push_front(centre);
        self.extensions = 2;
        self.score = 0;
        self.game_over = false;
        self.committed_direction = Direction::Still;
        self.requested_direction = Direction::Still;
        proof {
            lemma_area_bounds(self.width, self.height);
        }
        let placed = self.place_fruit();
        assert(placed);
    }

    /// Records the player's wish for the next tick, unless it would
    /// reverse the last committed direction, in which case it is ignored.
    pub fn request_direction(&mut self, d: Direction)
        ensures
            final(self).requested_direction == requested_after(*old(self), d),
            final(self).committed_direction == old(self).committed_direction,
            final(self).snake == old(self).snake,
            final(self).extensions == old(self).extensions,
            final(self).fruit_position == old(self).fruit_position,
            final(self).score == old(self).score,
            final(self).game_over == old(self).game_over,
            same_dims(*old(self), *final(self)),
    {
        if self.committed_direction.new_direction_allowed(d) {
            self.requested_direction = d;
        }
    }

    /// One tick in direction `direction`; must only be called while the
    /// game is on.  `Direction::Still` is a no-op.  Otherwise the head
    /// advances one cell (wrapped at the edges when wrap-around is on);
    /// eating the fruit raises the score and the pending growth and puts
    /// a new fruit on a cell free of the snake; a wall hit, a body hit or
    /// a full board ends the game, leaving the snake untouched.
    pub fn advance(&mut self, direction: Direction) -> (r: TickOutcome)
        requires
            old(self).wf(),
            !old(self).game_over,
            old(self).score < u32::MAX,
            old(self).extensions < u32::MAX,
        ensures
            final(self).wf(),
            advance_rel(*old(self), direction, *final(self), r),
            final(self).committed_direction == old(self).committed_direction,
            final(self).requested_direction == old(self).requested_direction,
            final(self).snake@.len() == old(self).snake@.len() || final(self).snake@.len() == old(
                self,
            ).snake@.len() + 1,
    {
        if matches!(direction, Direction::Still) {
            return TickOutcome::Continued;
        }
        let head = *self.snake.index(0);
        assert(pos_in_bounds(head, self.width, self.height));
        let raw = match direction {
            Direction::Still => head,
            Direction::Up => Position::new(head.x, head.y - 1),
            Direction::Down => Position::new(head.x, head.y + 1),
            Direction::Left => Position::new(head.x - 1, head.y),
            Direction::Right => Position::new(head.x + 1, head.y),
        };
        assert(raw == spec_step(old(self).snake@[0], direction));
        if !self.wrap_around && (raw.x < 0 || raw.x >= self.width || raw.y < 0 || raw.y
            >= self.height) {
            self.game_over = true;
            proof {
                assert(hits_wall(*old(self), direction));
                assert(!eats_fruit(*old(self), direction));
                lemma_advance_preserves_wf(
                    *old(self),
                    direction,
                    *self,
                    TickOutcome::Terminated(EndReason::WallCollision),
                );
            }
            return TickOutcome::Terminated(EndReason::WallCollision);
        }
        let cand = if self.wrap_around {
            self.wrap_position(raw)
        } else {
            raw
        };
        assert(cand == candidate_pos(*old(self), direction));
        assert(!hits_wall(*old(self), direction));
        if cand == self.fruit_position {
            self.score = self.score + 1;
            self.extensions = self.extensions + 1;
            proof {
                lemma_area_bounds(self.width, self.height);
            }
            let area = (self.width as u32) * (self.height as u32);
            assert(area == self.spec_area());
            let len = self.snake.len();
            if len >= (area as usize) - 1 {
                self.game_over = true;
                proof {
                    assert(board_would_fill(*old(self)));
                    lemma_advance_preserves_wf(
                        *old(self),
                        direction,
                        *self,
                        TickOutcome::Terminated(EndReason::BoardFull),
                    );
                }
                return TickOutcome::Terminated(EndReason::BoardFull);
            }
            assert(self.snake@.len() < self.spec_area());
            let placed = self.place_fruit();
            assert(placed);
        }
        let grows = self.extensions > 0;
        assert(grows == grows_this_tick(*old(self), direction));
        let end = if grows {
            self.snake.len()
        } else {
            self.snake.len() - 1
        };
        let hit = self.collides_within(cand.x, cand.y, end);
        proof {
            let s = old(self).snake@;
            if hit {
                let i = choose|i: int|
                    0 <= i < end && self.snake@[i] == (Position { x: cand.x, y: cand.y });
                assert(s[i] == cand);
                if grows {
                    assert(s.contains(cand));
                } else {
                    assert(s.drop_last()[i] == cand);
                    assert(s.drop_last().contains(cand));
                }
                assert(self_collides(*old(self), direction));
            } else {
                if grows {
                    if s.contains(cand) {
                        let i = choose|i: int| 0 <= i < s.len() && s[i] == cand;
                        assert(self.snake@[i] == (Position { x: cand.x, y: cand.y }));
                        assert(false);
                    }
                } else {
                    if s.drop_last().contains(cand) {
                        let i = choose|i: int|
                            0 <= i < s.drop_last().len() && s.drop_last()[i] == cand;
                        assert(self.snake@[i] == (Position { x: cand.x, y: cand.y }));
                        assert(false);
                    }
                }
                assert(!self_collides(*old(self), direction));
            }
        }
        if hit {
            self.game_over = true;
            proof {
                lemma_advance_preserves_wf(
                    *old(self),
                    direction,
                    *self,
                    TickOutcome::Terminated(EndReason::SelfCollision),
                );
            }
            return TickOutcome::Terminated(EndReason::SelfCollision);
        }
        assert(spec_tick_reason(*old(self), direction) is None);
        self.snake.push_front(cand);
        if self.extensions > 0 {
            self.extensions = self.extensions - 1;
            assert(self.snake@ =~= seq![candidate_pos(*old(self), direction)] + old(self).snake@);
        } else {
            let _tail = self.snake.pop_back();
            assert(self.snake@ =~= seq![candidate_pos(*old(self), direction)] + old(
                self,
            ).snake@.drop_last());
        }
        proof {
            lemma_advance_preserves_wf(*old(self), direction, *self, TickOutcome::Continued);
        }
        TickOutcome::Continued
    }

    /// One tick with the buffered direction; on actual movement that
    /// direction becomes the committed one the reversal guard checks
    /// against.
    pub fn tick(&mut self) -> (r: TickOutcome)
        requires
            old(self).wf(),
            !old(self).game_over,
            old(self).score < u32::MAX,
            old(self).extensions < u32::MAX,
        ensures
            final(self).wf(),
            advance_rel(*old(self), old(self).requested_direction, *final(self), r),
            final(self).requested_direction == old(self).requested_direction,
            final(self).committed_direction == (if r == TickOutcome::Continued && old(
                self,
            ).requested_direction != Direction::Still {
                old(self).requested_direction
            } else {
                old(self).committed_direction
            }),
    {
        let d = self.requested_direction;
        let r = self.advance(d);
        match r {
            TickOutcome::Continued => {
                if !matches!(d, Direction::Still) {
                    self.committed_direction = d;
                }
            },
            TickOutcome::Terminated(_) => {},
        }
        r
    }

    /// Puts the fruit on a cell chosen uniformly among the cells not
    /// occupied by the snake.  Succeeds whenever the snake leaves a cell
    /// free; on a fully occupied board it returns `false` and changes
    /// nothing.
    pub fn place_fruit(&mut self) -> (ok: bool)
        requires
            old(self).dims_ok(),
        ensures
            final(self).snake == old(self).snake,
            final(self).extensions == old(self).extensions,
            final(self).score == old(self).score,
            final(self).game_over == old(self).game_over,
            final(self).committed_direction == old(self).committed_direction,
            final(self).requested_direction == old(self).requested_direction,
            same_dims(*old(self), *final(self)),
            ok ==> pos_in_bounds(final(self).fruit_position, old(self).width, old(self).height)
                && !old(self).snake@.contains(final(self).fruit_position),
            !ok ==> final(self).fruit_position == old(self).fruit_position,
            old(self).snake@.len() < old(self).spec_area() ==> ok,
    {
        let w = self.width;
        let h = self.height;
        let mut free: Vec<Position> = Vec::new();
        let ghost mut seen: Set<Position> = Set::empty();
        let mut x: i16 = 0;
        while x < w
            invariant
                *self == *old(self),
                self.dims_ok(),
                w == self.width,
                h == self.height,
                0 <= x <= w,
                seen.finite(),
                free@.len() + seen.len() == x * h,
                forall|p: Position| #[trigger] seen.contains(p) ==> self.snake@.contains(p),
                forall|p: Position| #[trigger]
                    seen.contains(p) ==> 0 <= p.x < x && 0 <= p.y < h,
                forall|k: int|
                    0 <= k < free@.len() ==> pos_in_bounds(#[trigger] free@[k], w, h)
                        && !self.snake@.contains(free@[k]),
            decreases w - x,
        {
            let mut y: i16 = 0;
            while y < h
                invariant
                    *self == *old(self),
                    self.dims_ok(),
                    w == self.width,
                    h == self.height,
                    0 <= x < w,
                    0 <= y <= h,
                    seen.finite(),
                    free@.len() + seen.len() == x * h + y,
                    forall|p: Position| #[trigger] seen.contains(p) ==> self.snake@.contains(p),
                    forall|p: Position| #[trigger]
                        seen.contains(p) ==> (p.x < x || (p.x == x && p.y < y)) && 0 <= p.x && 0
                            <= p.y < h,
                    forall|k: int|
                        0 <= k < free@.len() ==> pos_in_bounds(#[trigger] free@[k], w, h)
                            && !self.snake@.contains(free@[k]),
                decreases h - y,
            {
                if self.collides_with_body(x, y, 0) {
                    proof {
                        let c = Position { x, y };
                        assert(!seen.contains(c));
                        seen = seen.insert(c);
                    }
                } else {
                    free.push(Position::new(x, y));
                }
                y = y + 1;
            }
            proof {
                assert(x * h + h == (x + 1) * h) by (nonlinear_arith);
            }
            x = x + 1;
        }
        assert(free@.len() + seen.len() == w * h);
        if free.len() == 0 {
            proof {
                assert(seen.len() == w * h);
                let occupied = self.snake@.to_set();
                assert(seen.subset_of(occupied));
                self.snake@.lemma_cardinality_of_set();
                lemma_len_subset(seen, occupied);
                assert(w * h <= self.snake@.len());
            }
            return false;
        }
        proof {
            lemma_area_bounds(w, h);
        }
        assert(free@.len() <= w * h <= 65536);
        let idx = random_below(free.len() as u32);
        let fruit = free[idx as usize];
        self.fruit_position = fruit;
        true
    }

    /// The head cell; the snake is never empty while the game runs.
    pub fn head_position(&self) -> (p: Position)
        requires
            self.snake@.len() >= 1,
        ensures
            p == self.snake@[0],
    {
        *self.snake.index(0)
    }

    /// Read-only view of the body, ordered head first.
    pub fn body_parts(&self) -> (r: &VecDeque<Position>)
        ensures
            r@ == self.snake@,
    {
        &self.snake
    }

    /// Applies the wrap-around rule to a candidate cell; with wrap-around
    /// disabled the cell is returned unchanged.
    pub fn wrap_position(&self, pos: Position) -> (r: Position)
        requires
            self.dims_ok(),
        ensures
            r == (if self.wrap_around {
                spec_wrap(pos, self.width, self.height)
            } else {
                pos
            }),
    {
        if !self.wrap_around {
            return pos;
        }
        let mut p = pos;
        if p.x < 0 {
            p.x = self.width - 1;
        } else if p.x >= self.width {
            p.x = 0;
        }
        if p.y < 0 {
            p.y = self.height - 1;
        } else if p.y >= self.height {
            p.y = 0;
        }
        p
    }

    /// Whether some segment with index at least `skip` sits on `(x, y)`.
    pub fn collides_with_body(&self, x: i16, y: i16, skip: usize) -> (r: bool)
        ensures
            r == exists|i: int|
                skip <= i < self.snake@.len() && self.snake@[i] == (Position { x, y }),
    {
        let mut i: usize = skip;
        let n = self.snake.len();
        while i < n
            invariant
                n == self.snake@.len(),
                skip <= i,
                forall|j: int|
                    skip <= j < i && j < self.snake@.len() ==> self.snake@[j] != (Position {
                        x,
                        y,
                    }),
            decreases n - i,
        {
            let p = *self.snake.index(i);
            if p.x == x && p.y == y {
                return true;
            }
            i = i + 1;
        }
        false
    }

    /// Whether some segment with index below `end` sits on `(x, y)`.
    fn collides_within(&self, x: i16, y: i16, end: usize) -> (r: bool)
        requires
            end <= self.snake@.len(),
        ensures
            r == exists|i: int| 0 <= i < end && self.snake@[i] == (Position { x, y }),
    {
        let mut i: usize = 0;
        while i < end
            invariant
                end <= self.snake@.len(),
                0 <= i <= end,
                forall|j: int| 0 <= j < i ==> self.snake@[j] != (Position { x, y }),
            decreases end - i,
        {
            let p = *self.snake.index(i);
            if p.x == x && p.y == y {
                return true;
            }
            i = i + 1;
        }
        false
    }

    /// Builds a game from explicit parts, for replaying chosen board
    /// situations; returns `None` exactly when the parts do not form a
    /// well-formed state.
    pub fn from_parts(
        width: i16,
        height: i16,
        wrap_around: bool,
        snake: VecDeque<Position>,
        extensions: u32,
        fruit_position: Position,
        score: u32,
        committed_direction: Direction,
    ) -> (g: Option<GameState>)
        ensures
            match g {
                Some(gs) => {
                    &&& gs.wf()
                    &&& gs.width == width
                    &&& gs.height == height
                    &&& gs.wrap_around == wrap_around
                    &&& gs.snake@ == snake@
                    &&& gs.extensions == extensions
                    &&& gs.fruit_position == fruit_position
                    &&& gs.score == score
                    &&& !gs.game_over
                    &&& gs.committed_direction == committed_direction
                    &&& gs.requested_direction == committed_direction
                },
                None => true,
            },
            g is Some <==> {
                &&& 2 <= width <= MAX_GRID_DIM
                &&& 2 <= height <= MAX_GRID_DIM
                &&& snake@.len() >= 1
                &&& snake@.no_duplicates()
                &&& forall|i: int|
                    0 <= i < snake@.len() ==> pos_in_bounds(#[trigger] snake@[i], width, height)
                &&& pos_in_bounds(fruit_position, width, height)
            },
    {
        if width < 2 || width > MAX_GRID_DIM || height < 2 || height > MAX_GRID_DIM {
            return None;
        }
        if snake.len() == 0 {
            return None;
        }
        if !deque_all_in_bounds(&snake, width, height) {
            return None;
        }
        if !deque_no_duplicates(&snake) {
            return None;
        }
        if fruit_position.x < 0 || fruit_position.x >= width || fruit_position.y < 0
            || fruit_position.y >= height {
            return None;
        }
        Some(
            GameState {
                snake,
                extensions,
                fruit_position,
                score,
                wrap_around,
                game_over: false,
                width,
                height,
                committed_direction,
                requested_direction: committed_direction,
            },
        )
    }
}

/// Every cell of `s` lies on the `width` by `height` grid.
fn deque_all_in_bounds(s: &VecDeque<Position>, width: i16, height: i16) -> (r: bool)
    ensures
        r == forall|i: int| 0 <= i < s@.len() ==> pos_in_bounds(#[trigger] s@[i], width, height),
{
    let n = s.len();
    let mut i: usize = 0;
    while i < n
        invariant
            n == s@.len(),
            0 <= i <= n,
            forall|j: int| 0 <= j < i ==> pos_in_bounds(#[trigger] s@[j], width, height),
        decreases n - i,
    {
        let p = *s.index(i);
        if p.x < 0 || p.x >= width || p.y < 0 || p.y >= height {
            return false;
        }
        i = i + 1;
    }
    true
}

/// No two cells of `s` are equal.
fn deque_no_duplicates(s: &VecDeque<Position>) -> (r: bool)
    ensures
        r == s@.no_duplicates(),
{
    let n = s.len();
    let mut i: usize = 0;
    while i < n
        invariant
            n == s@.len(),
            0 <= i <= n,
            forall|p: int, q: int| 0 <= p < q < s@.len() && p < i ==> s@[p] != s@[q],
        decreases n - i,
    {
        let a = *s.index(i);
        let mut j: usize = i + 1;
        while j < n
            invariant
                n == s@.len(),
                0 <= i < j <= n,
                a == s@[i as int],
                forall|q: int| i < q < j ==> s@[i as int] != s@[q],
            decreases n - j,
        {
            let b = *s.index(j);
            if a.x == b.x && a.y == b.y {
                return false;
            }
            j = j + 1;
        }
        i = i + 1;
    }
    true
}

} // verus!
