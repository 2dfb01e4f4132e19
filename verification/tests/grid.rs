use arena::{Direction, Field, Position};

fn square(side: u16) -> Field {
    Field { width: side, height: side }
}

#[test]
fn moving_left_from_the_first_column_wraps_to_the_last() {
    let field = square(3);
    assert_eq!(field.step(Position::new(0, 0), Direction::Left), Position::new(2, 0));
}

#[test]
fn moving_up_from_the_first_row_wraps_to_the_last_in_every_column() {
    let field = square(3);
    for x in 0..3 {
        assert_eq!(field.step(Position::new(x, 0), Direction::Up), Position::new(x, 2));
    }
}

#[test]
fn moving_left_and_up_inside_the_grid_goes_one_cell_back() {
    let field = Field { width: 5, height: 4 };
    assert_eq!(field.step(Position::new(3, 2), Direction::Left), Position::new(2, 2));
    assert_eq!(field.step(Position::new(3, 2), Direction::Up), Position::new(3, 1));
    assert_eq!(field.step(Position::new(4, 3), Direction::Left), Position::new(3, 3));
    assert_eq!(field.step(Position::new(4, 3), Direction::Up), Position::new(4, 2));
}

#[test]
fn moving_right_never_lands_on_the_last_column() {
    let field = Field { width: 5, height: 4 };
    assert_eq!(field.step(Position::new(0, 1), Direction::Right), Position::new(1, 1));
    assert_eq!(field.step(Position::new(2, 1), Direction::Right), Position::new(3, 1));
    // From the column before the last, one step goes to 0, not to the last.
    assert_eq!(field.step(Position::new(3, 1), Direction::Right), Position::new(0, 1));
    // And from the last column too.
    assert_eq!(field.step(Position::new(4, 1), Direction::Right), Position::new(0, 1));
    for x in 0..5 {
        assert_ne!(field.step(Position::new(x, 0), Direction::Right).x, 4);
    }
}

#[test]
fn moving_down_never_lands_on_the_last_row() {
    let field = Field { width: 5, height: 4 };
    assert_eq!(field.step(Position::new(1, 0), Direction::Down), Position::new(1, 1));
    assert_eq!(field.step(Position::new(1, 1), Direction::Down), Position::new(1, 2));
    assert_eq!(field.step(Position::new(1, 2), Direction::Down), Position::new(1, 0));
    assert_eq!(field.step(Position::new(1, 3), Direction::Down), Position::new(1, 0));
    for y in 0..4 {
        assert_ne!(field.step(Position::new(0, y), Direction::Down).y, 3);
    }
}

#[test]
fn two_steps_right_from_the_column_before_the_last_end_on_the_second() {
    let field = square(4);
    let once = field.step(Position::new(2, 0), Direction::Right);
    assert_eq!(once, Position::new(0, 0));
    let twice = field.step(once, Direction::Right);
    assert_eq!(twice, Position::new(1, 0));
}

#[test]
fn a_step_and_the_opposite_step_return_only_away_from_the_far_edge() {
    let field = square(4);
    // Inside: right then left comes back.
    let start = Position::new(0, 0);
    let there = field.step(start, Direction::Right);
    assert_eq!(field.step(there, Direction::Left), start);
    // From the column before the last, right wraps to 0 and left then goes
    // to the last column.
    let start = Position::new(2, 0);
    let there = field.step(start, Direction::Right);
    assert_eq!(field.step(there, Direction::Left), Position::new(3, 0));
    // From the last column, right then left comes back.
    let start = Position::new(3, 0);
    let there = field.step(start, Direction::Right);
    assert_eq!(field.step(there, Direction::Left), start);
    // Left then right comes back from the first column...
    let start = Position::new(0, 1);
    let there = field.step(start, Direction::Left);
    assert_eq!(there, Position::new(3, 1));
    assert_eq!(field.step(there, Direction::Right), start);
    // ...but not from the last one.
    let start = Position::new(3, 1);
    let there = field.step(start, Direction::Left);
    assert_eq!(there, Position::new(2, 1));
    assert_eq!(field.step(there, Direction::Right), Position::new(0, 1));
    // The same along the other axis.
    let start = Position::new(1, 3);
    let there = field.step(start, Direction::Up);
    assert_eq!(field.step(there, Direction::Down), Position::new(1, 0));
}

#[test]
fn every_step_stays_inside_the_grid() {
    let field = Field { width: 3, height: 2 };
    for x in 0..3 {
        for y in 0..2 {
            for direction in [Direction::Up, Direction::Down, Direction::Left, Direction::Right] {
                let to = field.step(Position::new(x, y), direction);
                assert!(field.contains(&to));
            }
        }
    }
}

#[test]
fn on_a_grid_of_one_cell_every_step_stays_put() {
    let field = square(1);
    for direction in [Direction::Up, Direction::Down, Direction::Left, Direction::Right] {
        assert_eq!(field.step(Position::new(0, 0), direction), Position::new(0, 0));
    }
}

#[test]
fn on_a_grid_of_two_columns_right_always_goes_to_the_first() {
    let field = Field { width: 2, height: 1 };
    assert_eq!(field.step(Position::new(0, 0), Direction::Right), Position::new(0, 0));
    assert_eq!(field.step(Position::new(1, 0), Direction::Right), Position::new(0, 0));
    assert_eq!(field.step(Position::new(0, 0), Direction::Left), Position::new(1, 0));
}

#[test]
fn steps_on_the_largest_grid_do_not_overflow() {
    let field = Field { width: u16::MAX, height: u16::MAX };
    let far = Position::new(u16::MAX - 1, u16::MAX - 1);
    assert_eq!(field.step(far, Direction::Right), Position::new(0, u16::MAX - 1));
    assert_eq!(field.step(far, Direction::Down), Position::new(u16::MAX - 1, 0));
    assert_eq!(
        field.step(Position::new(0, 0), Direction::Left),
        Position::new(u16::MAX - 1, 0)
    );
}

#[test]
fn a_field_contains_exactly_the_cells_below_its_extent() {
    let field = Field { width: 4, height: 2 };
    assert!(field.contains(&Position::new(0, 0)));
    assert!(field.contains(&Position::new(3, 1)));
    assert!(!field.contains(&Position::new(4, 1)));
    assert!(!field.contains(&Position::new(3, 2)));
    assert!(!Field { width: 0, height: 5 }.contains(&Position::new(0, 0)));
}

#[test]
fn position_new_keeps_its_coordinates() {
    let p = Position::new(7, 11);
    assert_eq!(p.x, 7);
    assert_eq!(p.y, 11);
}

#[test]
fn a_drawn_number_stands_for_a_direction() {
    assert_eq!(Direction::from_index(0), Direction::Up);
    assert_eq!(Direction::from_index(1), Direction::Down);
    assert_eq!(Direction::from_index(2), Direction::Left);
    assert_eq!(Direction::from_index(3), Direction::Right);
    assert_eq!(Direction::from_index(4), Direction::Up);
    assert_eq!(Direction::from_index(u16::MAX), Direction::Up);
}

#[test]
fn a_random_direction_is_one_of_the_four_and_not_always_the_same() {
    let mut seen = [false; 4];
    for _ in 0..400 {
        match Direction::random() {
            Direction::Up => seen[0] = true,
            Direction::Down => seen[1] = true,
            Direction::Left => seen[2] = true,
            Direction::Right => seen[3] = true,
        }
    }
    assert_eq!(seen, [true; 4]);
}
