use std::collections::VecDeque;

use rusty_snake::game::{EndReason, GameState, TickOutcome};
use rusty_snake::geometry::{Direction, Position};

fn deque(cells: Vec<(i16, i16)>) -> VecDeque<Position> {
    cells.into_iter().map(|(x, y)| Position::new(x, y)).collect()
}

fn snake_cells(g: &GameState) -> Vec<Position> {
    g.body_parts().iter().copied().collect()
}

fn pairwise_distinct(cells: &[Position]) -> bool {
    for i in 0..cells.len() {
        for j in (i + 1)..cells.len() {
            if cells[i] == cells[j] {
                return false;
            }
        }
    }
    true
}

fn on_grid(p: Position, w: i16, h: i16) -> bool {
    0 <= p.x && p.x < w && 0 <= p.y && p.y < h
}

#[test]
fn new_game_starts_reset() {
    let g = GameState::new(25, 18, false);
    assert_eq!(snake_cells(&g), vec![Position::new(12, 9)]);
    assert_eq!(g.head_position(), Position::new(12, 9));
    assert_eq!(g.extensions, 2);
    assert_eq!(g.score, 0);
    assert!(!g.game_over);
    assert!(!g.wrap_around);
    assert_eq!(g.committed_direction, Direction::Still);
    assert_eq!(g.requested_direction, Direction::Still);
    assert!(on_grid(g.fruit_position, 25, 18));
    assert_ne!(g.fruit_position, Position::new(12, 9));
}

#[test]
fn advance_still_is_a_no_op() {
    let mut g = GameState::new(25, 18, false);
    let before = snake_cells(&g);
    let fruit = g.fruit_position;
    let r = g.advance(Direction::Still);
    assert_eq!(r, TickOutcome::Continued);
    assert_eq!(snake_cells(&g), before);
    assert_eq!(g.fruit_position, fruit);
    assert_eq!(g.score, 0);
    assert!(!g.game_over);
}

// Pairwise-distinct segments and bounded length change, observed over a
// whole random run.
#[test]
fn segments_stay_distinct_and_length_grows_slowly() {
    let mut g = GameState::new(6, 6, true);
    let plan = [
        Direction::Right,
        Direction::Down,
        Direction::Left,
        Direction::Up,
        Direction::Right,
        Direction::Right,
        Direction::Down,
        Direction::Down,
        Direction::Left,
        Direction::Up,
    ];
    let mut steps = 0;
    'outer: loop {
        for d in plan {
            if g.game_over || steps >= 200 {
                break 'outer;
            }
            let len_before = g.snake.len();
            let r = g.advance(d);
            let len_after = g.snake.len();
            assert!(len_after == len_before || len_after == len_before + 1);
            let cells = snake_cells(&g);
            assert!(pairwise_distinct(&cells));
            for c in cells {
                assert!(on_grid(c, 6, 6));
            }
            if let TickOutcome::Terminated(_) = r {
                assert!(g.game_over);
                assert_eq!(len_after, len_before);
                break 'outer;
            }
            steps += 1;
        }
    }
}

#[test]
fn reversal_guard_ignores_opposite_request() {
    let mut g = GameState::new(10, 10, false);
    // An uncommitted direction accepts anything.
    g.request_direction(Direction::Up);
    assert_eq!(g.requested_direction, Direction::Up);
    let r = g.tick();
    assert_eq!(r, TickOutcome::Continued);
    assert_eq!(g.committed_direction, Direction::Up);
    // With `Up` committed, `Down` is ignored...
    g.request_direction(Direction::Down);
    assert_eq!(g.requested_direction, Direction::Up);
    assert_eq!(g.committed_direction, Direction::Up);
    // ...while `Left` and `Right` are taken.
    g.request_direction(Direction::Left);
    assert_eq!(g.requested_direction, Direction::Left);
    g.request_direction(Direction::Right);
    assert_eq!(g.requested_direction, Direction::Right);
}

#[test]
fn only_a_committed_direction_feeds_the_guard() {
    let mut g = GameState::new(10, 10, false);
    g.request_direction(Direction::Up);
    g.tick();
    assert_eq!(g.committed_direction, Direction::Up);
    // Several requests before the next tick: only the last legal one
    // counts, and the committed direction moves only on the tick.
    g.request_direction(Direction::Down);
    g.request_direction(Direction::Left);
    assert_eq!(g.committed_direction, Direction::Up);
    assert_eq!(g.requested_direction, Direction::Left);
    let head = g.head_position();
    g.tick();
    assert_eq!(g.committed_direction, Direction::Left);
    assert_eq!(g.head_position(), Position::new(head.x - 1, head.y));
}

#[test]
fn fruit_is_never_placed_on_the_snake() {
    for _ in 0..100 {
        let g = GameState::new(4, 4, false);
        assert!(on_grid(g.fruit_position, 4, 4));
        assert!(!snake_cells(&g).contains(&g.fruit_position));
    }
}

#[test]
fn place_fruit_avoids_every_segment() {
    // Only one cell of the 2 by 2 board is free: placement must find it.
    let g = GameState::from_parts(
        2,
        2,
        false,
        deque(vec![(0, 0), (1, 0), (1, 1)]),
        0,
        Position::new(0, 0),
        0,
        Direction::Still,
    );
    let mut g = g.expect("a well-formed board");
    for _ in 0..20 {
        assert!(g.place_fruit());
        assert_eq!(g.fruit_position, Position::new(0, 1));
    }
}

#[test]
fn place_fruit_reports_a_full_board() {
    let g = GameState::from_parts(
        2,
        2,
        false,
        deque(vec![(0, 0), (1, 0), (1, 1), (0, 1)]),
        0,
        Position::new(1, 1),
        3,
        Direction::Still,
    );
    let mut g = g.expect("a well-formed board");
    assert!(!g.place_fruit());
    assert_eq!(g.fruit_position, Position::new(1, 1));
    assert_eq!(g.score, 3);
}

#[test]
fn wrap_right_edge_re_enters_left() {
    let g = GameState::from_parts(
        5,
        5,
        true,
        deque(vec![(4, 2)]),
        0,
        Position::new(1, 1),
        0,
        Direction::Right,
    );
    let mut g = g.expect("a well-formed board");
    let r = g.advance(Direction::Right);
    assert_eq!(r, TickOutcome::Continued);
    assert_eq!(g.head_position(), Position::new(0, 2));
    assert!(!g.game_over);
}

#[test]
fn right_edge_without_wrap_is_a_wall_collision() {
    let g = GameState::from_parts(
        5,
        5,
        false,
        deque(vec![(4, 2)]),
        0,
        Position::new(1, 1),
        0,
        Direction::Right,
    );
    let mut g = g.expect("a well-formed board");
    let r = g.advance(Direction::Right);
    assert_eq!(r, TickOutcome::Terminated(EndReason::WallCollision));
    assert_eq!(snake_cells(&g), vec![Position::new(4, 2)]);
    assert_eq!(g.score, 0);
    assert!(g.game_over);
}

#[test]
fn wrap_covers_all_four_edges() {
    let cases = [
        ((0, 2), Direction::Left, Position::new(4, 2)),
        ((4, 2), Direction::Right, Position::new(0, 2)),
        ((2, 0), Direction::Up, Position::new(2, 4)),
        ((2, 4), Direction::Down, Position::new(2, 0)),
    ];
    for (start, d, expected) in cases {
        let g = GameState::from_parts(
            5,
            5,
            true,
            deque(vec![start]),
            0,
            Position::new(1, 1),
            0,
            Direction::Still,
        );
        let mut g = g.expect("a well-formed board");
        assert_eq!(g.advance(d), TickOutcome::Continued);
        assert_eq!(g.head_position(), expected);
    }
}

#[test]
fn wrap_position_leaves_inner_cells_alone() {
    let g = GameState::new(25, 18, true);
    assert_eq!(g.wrap_position(Position::new(7, 11)), Position::new(7, 11));
    assert_eq!(g.wrap_position(Position::new(-1, 3)), Position::new(24, 3));
    assert_eq!(g.wrap_position(Position::new(25, 3)), Position::new(0, 3));
    assert_eq!(g.wrap_position(Position::new(6, -1)), Position::new(6, 17));
    assert_eq!(g.wrap_position(Position::new(6, 18)), Position::new(6, 0));
    let g = GameState::new(25, 18, false);
    assert_eq!(g.wrap_position(Position::new(-1, 3)), Position::new(-1, 3));
}

#[test]
fn eating_the_fruit_scores_and_grows() {
    let g = GameState::from_parts(
        5,
        5,
        false,
        deque(vec![(2, 2)]),
        0,
        Position::new(3, 2),
        7,
        Direction::Still,
    );
    let mut g = g.expect("a well-formed board");
    let r = g.advance(Direction::Right);
    assert_eq!(r, TickOutcome::Continued);
    assert_eq!(g.score, 8);
    assert_eq!(g.snake.len(), 2);
    assert_eq!(g.head_position(), Position::new(3, 2));
    assert_eq!(g.extensions, 0);
    // At placement time the new fruit avoided the old snake.
    assert_ne!(g.fruit_position, Position::new(2, 2));
    assert!(on_grid(g.fruit_position, 5, 5));
}

#[test]
fn self_collision_terminates_and_preserves_the_state() {
    // A snake of length five whose head turns back into its own body.
    let body = vec![(2, 2), (3, 2), (3, 3), (2, 3), (1, 3)];
    let g = GameState::from_parts(
        7,
        7,
        false,
        deque(body.clone()),
        0,
        Position::new(6, 6),
        4,
        Direction::Left,
    );
    let mut g = g.expect("a well-formed board");
    let r = g.advance(Direction::Down);
    assert_eq!(r, TickOutcome::Terminated(EndReason::SelfCollision));
    assert!(g.game_over);
    assert_eq!(snake_cells(&g), deque(body).into_iter().collect::<Vec<_>>());
    assert_eq!(g.score, 4);
    assert_eq!(g.fruit_position, Position::new(6, 6));
}

#[test]
fn vacated_tail_cell_is_not_a_collision() {
    // The head may enter the cell the tail leaves this very tick.
    let g = GameState::from_parts(
        7,
        7,
        false,
        deque(vec![(2, 2), (3, 2), (3, 3), (2, 3)]),
        0,
        Position::new(6, 6),
        0,
        Direction::Left,
    );
    let mut g = g.expect("a well-formed board");
    let r = g.advance(Direction::Down);
    assert_eq!(r, TickOutcome::Continued);
    assert_eq!(
        snake_cells(&g),
        deque(vec![(2, 3), (2, 2), (3, 2), (3, 3)]).into_iter().collect::<Vec<_>>()
    );
}

#[test]
fn pending_growth_makes_the_tail_solid() {
    // Same turn as above, but growth is pending: the tail stays put and
    // the head runs into it.
    let g = GameState::from_parts(
        7,
        7,
        false,
        deque(vec![(2, 2), (3, 2), (3, 3), (2, 3)]),
        1,
        Position::new(6, 6),
        0,
        Direction::Left,
    );
    let mut g = g.expect("a well-formed board");
    let r = g.advance(Direction::Down);
    assert_eq!(r, TickOutcome::Terminated(EndReason::SelfCollision));
}

#[test]
fn third_move_right_leaves_a_five_grid() {
    // A 5 by 5 grid, one segment at the centre, growth of two pending:
    // two moves right fit, the third leaves the board.
    let g = GameState::from_parts(
        5,
        5,
        false,
        deque(vec![(2, 2)]),
        2,
        Position::new(0, 0),
        0,
        Direction::Still,
    );
    let mut g = g.expect("a well-formed board");
    assert_eq!(g.advance(Direction::Right), TickOutcome::Continued);
    assert_eq!(g.head_position(), Position::new(3, 2));
    assert_eq!(g.advance(Direction::Right), TickOutcome::Continued);
    assert_eq!(g.head_position(), Position::new(4, 2));
    let after_second = snake_cells(&g);
    assert_eq!(
        after_second,
        deque(vec![(4, 2), (3, 2), (2, 2)]).into_iter().collect::<Vec<_>>()
    );
    let r = g.advance(Direction::Right);
    assert_eq!(r, TickOutcome::Terminated(EndReason::WallCollision));
    assert_eq!(snake_cells(&g), after_second);
    assert!(g.game_over);
}

#[test]
fn filling_the_board_ends_the_game() {
    let g = GameState::from_parts(
        2,
        2,
        false,
        deque(vec![(0, 0), (1, 0), (1, 1)]),
        0,
        Position::new(0, 1),
        0,
        Direction::Still,
    );
    let mut g = g.expect("a well-formed board");
    let r = g.advance(Direction::Down);
    assert_eq!(r, TickOutcome::Terminated(EndReason::BoardFull));
    assert!(g.game_over);
    // The fruit was eaten: score and pending growth moved, the snake did not.
    assert_eq!(g.score, 1);
    assert_eq!(g.extensions, 1);
    assert_eq!(g.snake.len(), 3);
    assert_eq!(g.fruit_position, Position::new(0, 1));
}

#[test]
fn reset_restores_a_fresh_board() {
    let mut g = GameState::new(5, 5, false);
    g.advance(Direction::Right);
    g.advance(Direction::Right);
    let r = g.advance(Direction::Right);
    assert_eq!(r, TickOutcome::Terminated(EndReason::WallCollision));
    assert!(g.game_over);
    g.reset();
    assert!(!g.game_over);
    assert_eq!(g.score, 0);
    assert_eq!(g.extensions, 2);
    assert_eq!(snake_cells(&g), vec![Position::new(2, 2)]);
    assert_eq!(g.committed_direction, Direction::Still);
    assert!(!snake_cells(&g).contains(&g.fruit_position));
}

#[test]
fn direction_guard_table() {
    let all = [
        Direction::Still,
        Direction::Up,
        Direction::Down,
        Direction::Left,
        Direction::Right,
    ];
    for d in all {
        assert!(Direction::Still.new_direction_allowed(d));
    }
    assert!(!Direction::Up.new_direction_allowed(Direction::Down));
    assert!(!Direction::Down.new_direction_allowed(Direction::Up));
    assert!(!Direction::Left.new_direction_allowed(Direction::Right));
    assert!(!Direction::Right.new_direction_allowed(Direction::Left));
    assert!(Direction::Up.new_direction_allowed(Direction::Up));
    assert!(Direction::Up.new_direction_allowed(Direction::Left));
    assert!(Direction::Up.new_direction_allowed(Direction::Right));
    assert!(Direction::Down.new_direction_allowed(Direction::Left));
    assert!(Direction::Left.new_direction_allowed(Direction::Up));
    assert!(Direction::Right.new_direction_allowed(Direction::Down));
}

#[test]
fn from_parts_rejects_malformed_states() {
    let fruit = Position::new(0, 0);
    // Grid too small or too large.
    assert!(GameState::from_parts(1, 5, false, deque(vec![(0, 0)]), 0, fruit, 0, Direction::Still)
        .is_none());
    assert!(GameState::from_parts(5, 1, false, deque(vec![(0, 0)]), 0, fruit, 0, Direction::Still)
        .is_none());
    assert!(GameState::from_parts(
        257,
        5,
        false,
        deque(vec![(0, 0)]),
        0,
        fruit,
        0,
        Direction::Still
    )
    .is_none());
    // An empty snake.
    assert!(GameState::from_parts(5, 5, false, deque(vec![]), 0, fruit, 0, Direction::Still)
        .is_none());
    // A segment off the grid.
    assert!(GameState::from_parts(
        5,
        5,
        false,
        deque(vec![(0, 0), (5, 0)]),
        0,
        fruit,
        0,
        Direction::Still
    )
    .is_none());
    // Two segments on one cell.
    assert!(GameState::from_parts(
        5,
        5,
        false,
        deque(vec![(1, 1), (2, 1), (1, 1)]),
        0,
        fruit,
        0,
        Direction::Still
    )
    .is_none());
    // The fruit off the grid.
    assert!(GameState::from_parts(
        5,
        5,
        false,
        deque(vec![(0, 0)]),
        0,
        Position::new(5, 5),
        0,
        Direction::Still
    )
    .is_none());
    // The largest accepted grid is fine.
    assert!(GameState::from_parts(
        256,
        256,
        true,
        deque(vec![(255, 255)]),
        0,
        fruit,
        0,
        Direction::Still
    )
    .is_some());
}

#[test]
fn from_parts_keeps_the_given_parts() {
    let g = GameState::from_parts(
        9,
        7,
        true,
        deque(vec![(4, 3), (4, 4)]),
        5,
        Position::new(8, 6),
        11,
        Direction::Up,
    )
    .expect("a well-formed board");
    assert_eq!(g.width, 9);
    assert_eq!(g.height, 7);
    assert!(g.wrap_around);
    assert_eq!(snake_cells(&g), deque(vec![(4, 3), (4, 4)]).into_iter().collect::<Vec<_>>());
    assert_eq!(g.extensions, 5);
    assert_eq!(g.fruit_position, Position::new(8, 6));
    assert_eq!(g.score, 11);
    assert!(!g.game_over);
    assert_eq!(g.committed_direction, Direction::Up);
    assert_eq!(g.requested_direction, Direction::Up);
}
