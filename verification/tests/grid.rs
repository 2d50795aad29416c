use snake_core::direction::Direction;
use snake_core::grid::{
    arena_cell, Position, ARENA_HEIGHT, ARENA_WIDTH, FOOD_SPAWN_MS, MOVEMENT_TICK_MS,
};

#[test]
fn arena_is_ten_by_ten() {
    assert_eq!(ARENA_WIDTH, 10);
    assert_eq!(ARENA_HEIGHT, 10);
}

#[test]
fn ticks_every_150_ms_and_food_every_second() {
    assert_eq!(MOVEMENT_TICK_MS, 150);
    assert_eq!(FOOD_SPAWN_MS, 1000);
}

#[test]
fn positions_are_equal_by_value() {
    assert_eq!(Position { x: 3, y: 2 }, Position { x: 3, y: 2 });
    assert_ne!(Position { x: 3, y: 2 }, Position { x: 2, y: 3 });
}

#[test]
fn step_moves_one_unit_along_the_heading() {
    let p = Position { x: 3, y: 3 };
    assert_eq!(p.step(Direction::Left), Position { x: 2, y: 3 });
    assert_eq!(p.step(Direction::Right), Position { x: 4, y: 3 });
    assert_eq!(p.step(Direction::Up), Position { x: 3, y: 4 });
    assert_eq!(p.step(Direction::Down), Position { x: 3, y: 2 });
}

#[test]
fn step_leaves_the_arena_without_clamping() {
    let p = Position { x: 0, y: 0 };
    assert_eq!(p.step(Direction::Left), Position { x: -1, y: 0 });
    assert_eq!(p.step(Direction::Down), Position { x: 0, y: -1 });
    let q = Position { x: 9, y: 9 };
    assert_eq!(q.step(Direction::Right), Position { x: 10, y: 9 });
    assert_eq!(q.step(Direction::Up), Position { x: 9, y: 10 });
}

#[test]
fn can_advance_fails_only_at_the_end_of_the_integers() {
    let low = Position { x: i32::MIN, y: i32::MIN };
    assert!(!low.can_advance(Direction::Left));
    assert!(!low.can_advance(Direction::Down));
    assert!(low.can_advance(Direction::Right));
    assert!(low.can_advance(Direction::Up));
    let high = Position { x: i32::MAX, y: i32::MAX };
    assert!(!high.can_advance(Direction::Right));
    assert!(!high.can_advance(Direction::Up));
    assert!(high.can_advance(Direction::Left));
    assert!(high.can_advance(Direction::Down));
    let mid = Position { x: 0, y: 0 };
    for d in [Direction::Left, Direction::Up, Direction::Right, Direction::Down] {
        assert!(mid.can_advance(d));
    }
}

#[test]
fn step_next_to_the_end_of_the_integers_reaches_it() {
    let p = Position { x: i32::MIN + 1, y: i32::MAX - 1 };
    assert_eq!(p.step(Direction::Left), Position { x: i32::MIN, y: i32::MAX - 1 });
    assert_eq!(p.step(Direction::Up), Position { x: i32::MIN + 1, y: i32::MAX });
}

#[test]
fn arena_cell_is_the_remainder() {
    assert_eq!(arena_cell(0, 10), 0);
    assert_eq!(arena_cell(9, 10), 9);
    assert_eq!(arena_cell(10, 10), 0);
    assert_eq!(arena_cell(123, 10), 3);
    assert_eq!(arena_cell(u32::MAX, 10), 5);
    assert_eq!(arena_cell(7, 1), 0);
    assert_eq!(arena_cell(u32::MAX, i32::MAX as u32), 1);
}

#[test]
fn from_samples_picks_a_cell_of_the_arena() {
    assert_eq!(Position::from_samples(0, 0), Position { x: 0, y: 0 });
    assert_eq!(Position::from_samples(13, 24), Position { x: 3, y: 4 });
    assert_eq!(Position::from_samples(u32::MAX, 4_000_000_007), Position { x: 5, y: 7 });
    for sx in [0u32, 1, 9, 10, 11, 99, 100, 1 << 31, u32::MAX] {
        for sy in [0u32, 5, 10, 19, 12345, u32::MAX - 1] {
            let p = Position::from_samples(sx, sy);
            assert!(0 <= p.x && p.x < ARENA_WIDTH as i32);
            assert!(0 <= p.y && p.y < ARENA_HEIGHT as i32);
        }
    }
}
