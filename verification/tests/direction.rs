use snake_core::direction::{Direction, SnakeHead};

const ALL: [Direction; 4] = [Direction::Left, Direction::Up, Direction::Right, Direction::Down];

#[test]
fn oppsite_pairs_left_with_right_and_up_with_down() {
    assert_eq!(Direction::Left.oppsite(), Direction::Right);
    assert_eq!(Direction::Right.oppsite(), Direction::Left);
    assert_eq!(Direction::Up.oppsite(), Direction::Down);
    assert_eq!(Direction::Down.oppsite(), Direction::Up);
}

#[test]
fn oppsite_twice_is_the_heading_itself() {
    for d in ALL {
        assert_eq!(d.oppsite().oppsite(), d);
        assert_ne!(d.oppsite(), d);
    }
}

#[test]
fn candidate_is_applied_unless_it_reverses() {
    for current in ALL {
        for candidate in ALL {
            let mut head = SnakeHead::new(current);
            head.set_candidate(candidate);
            if candidate == current.oppsite() {
                assert_eq!(head.current(), current);
            } else {
                assert_eq!(head.current(), candidate);
            }
        }
    }
}

#[test]
fn reversal_is_rejected_then_orthogonal_turn_is_accepted() {
    let mut head = SnakeHead::new(Direction::Up);
    head.set_candidate(Direction::Down);
    assert_eq!(head.current(), Direction::Up);
    head.set_candidate(Direction::Left);
    assert_eq!(head.current(), Direction::Left);
}

#[test]
fn proposing_the_current_heading_keeps_it() {
    for current in ALL {
        let mut head = SnakeHead::new(current);
        head.set_candidate(current);
        assert_eq!(head.current(), current);
    }
}

#[test]
fn input_without_keys_keeps_the_heading() {
    for current in ALL {
        let mut head = SnakeHead::new(current);
        head.snake_movement_input(false, false, false, false);
        assert_eq!(head.current(), current);
    }
}

#[test]
fn input_with_one_key_proposes_that_heading() {
    let mut head = SnakeHead::new(Direction::Up);
    head.snake_movement_input(true, false, false, false);
    assert_eq!(head.current(), Direction::Left);

    let mut head = SnakeHead::new(Direction::Left);
    head.snake_movement_input(false, true, false, false);
    assert_eq!(head.current(), Direction::Down);

    let mut head = SnakeHead::new(Direction::Left);
    head.snake_movement_input(false, false, true, false);
    assert_eq!(head.current(), Direction::Up);

    let mut head = SnakeHead::new(Direction::Up);
    head.snake_movement_input(false, false, false, true);
    assert_eq!(head.current(), Direction::Right);
}

#[test]
fn input_priority_is_left_down_up_right() {
    let mut head = SnakeHead::new(Direction::Up);
    head.snake_movement_input(true, true, true, true);
    assert_eq!(head.current(), Direction::Left);

    let mut head = SnakeHead::new(Direction::Left);
    head.snake_movement_input(false, true, true, true);
    assert_eq!(head.current(), Direction::Down);

    let mut head = SnakeHead::new(Direction::Left);
    head.snake_movement_input(false, false, true, true);
    assert_eq!(head.current(), Direction::Up);
}

#[test]
fn input_priority_winner_that_reverses_is_rejected_as_a_whole() {
    // Left wins over up, and left reverses right: nothing changes, the
    // held up key is not looked at.
    let mut head = SnakeHead::new(Direction::Right);
    head.snake_movement_input(true, false, true, false);
    assert_eq!(head.current(), Direction::Right);

    // Down wins over right, and down reverses up.
    let mut head = SnakeHead::new(Direction::Up);
    head.snake_movement_input(false, true, false, true);
    assert_eq!(head.current(), Direction::Up);
}

#[test]
fn no_sample_turns_the_snake_around() {
    for current in ALL {
        for bits in 0..16u8 {
            let mut head = SnakeHead::new(current);
            head.snake_movement_input(bits & 1 != 0, bits & 2 != 0, bits & 4 != 0, bits & 8 != 0);
            assert_ne!(head.current(), current.oppsite());
        }
    }
}
