use snake::{Board, CellType, Direction, GameEvent, Part, Snake};

fn food_cells(b: &Board) -> Vec<(usize, usize)> {
    let mut found: Vec<(usize, usize)> = Vec::new();
    for c in b.cells().iter() {
        if c.cell_type() == CellType::Food {
            found.push((c.col(), c.row()));
        }
    }
    found
}

#[test]
fn new_snake_starts_with_four_segments_heading_right() {
    let s = Snake::new();
    assert_eq!(s.parts.len(), 4);
    assert_eq!(s.parts[0], Part { col: 5, row: 2 });
    assert_eq!(s.parts[1], Part { col: 4, row: 2 });
    assert_eq!(s.parts[2], Part { col: 3, row: 2 });
    assert_eq!(s.parts[3], Part { col: 2, row: 2 });
    assert_eq!(*s.direction(), Direction::Right);
    assert_eq!(s.score(), 0);
}

#[test]
fn change_direction_rejects_the_opposite() {
    let mut b = Board::new(10, 10);
    let mut s = Snake::new();
    s.change_direction(Direction::Left, &mut b);
    assert_eq!(*s.direction(), Direction::Right);
    s.change_direction(Direction::Up, &mut b);
    assert_eq!(*s.direction(), Direction::Up);
    s.change_direction(Direction::Down, &mut b);
    assert_eq!(*s.direction(), Direction::Up);
    s.change_direction(Direction::Up, &mut b);
    assert_eq!(*s.direction(), Direction::Up);
    s.change_direction(Direction::Right, &mut b);
    assert_eq!(*s.direction(), Direction::Right);
}

#[test]
fn change_direction_queues_event_only_when_accepted() {
    let mut b = Board::new(10, 10);
    let mut s = Snake::new();
    s.change_direction(Direction::Left, &mut b);
    assert!(b.take_events().is_empty());
    s.change_direction(Direction::Down, &mut b);
    assert_eq!(b.take_events(), vec![GameEvent::SnakeChangedDirection]);
    s.change_direction(Direction::Down, &mut b);
    assert_eq!(b.take_events(), vec![GameEvent::SnakeChangedDirection]);
}

#[test]
fn snake_wraps_left_at_column_zero() {
    let mut b = Board::new(10, 10);
    let mut s = Snake {
        direction: Direction::Left,
        parts: vec![Part { col: 0, row: 5 }],
    };
    s.update_movement(&mut b);
    assert_eq!(s.parts[0], Part { col: 9, row: 5 });
    assert!(!b.game_over());
}

#[test]
fn snake_wraps_right_at_last_column() {
    let mut b = Board::new(10, 10);
    let mut s = Snake {
        direction: Direction::Right,
        parts: vec![Part { col: 9, row: 5 }],
    };
    s.update_movement(&mut b);
    assert_eq!(s.parts[0], Part { col: 0, row: 5 });
    assert!(!b.game_over());
}

#[test]
fn snake_wraps_up_at_row_zero() {
    let mut b = Board::new(10, 10);
    let mut s = Snake {
        direction: Direction::Up,
        parts: vec![Part { col: 5, row: 0 }],
    };
    s.update_movement(&mut b);
    assert_eq!(s.parts[0], Part { col: 5, row: 9 });
    assert!(!b.game_over());
}

#[test]
fn snake_wraps_down_at_last_row() {
    let mut b = Board::new(10, 10);
    let mut s = Snake {
        direction: Direction::Down,
        parts: vec![Part { col: 5, row: 9 }],
    };
    s.update_movement(&mut b);
    assert_eq!(s.parts[0], Part { col: 5, row: 0 });
    assert!(!b.game_over());
}

#[test]
fn self_collision_ends_game_and_leaves_body() {
    let mut b = Board::new(10, 10);
    let mut s = Snake {
        direction: Direction::Down,
        parts: vec![
            Part { col: 2, row: 2 },
            Part { col: 3, row: 2 },
            Part { col: 3, row: 3 },
            Part { col: 2, row: 3 },
        ],
    };
    s.update(&mut b);
    let before = s.parts.clone();
    s.update_movement(&mut b);
    assert!(b.game_over());
    assert_eq!(s.parts, before);
    assert_eq!(b.take_events(), vec![GameEvent::SnakeDied]);
}

#[test]
fn eating_food_grows_by_one_and_respawns_food() {
    let mut b = Board::new(10, 10);
    let mut s = Snake::new();
    s.update(&mut b);
    b.set_cell(5, 2, CellType::Food);
    s.update(&mut b);
    assert_eq!(s.parts.len(), 5);
    assert_eq!(s.score(), 1);
    assert_eq!(s.parts[4], Part { col: 2, row: 2 });
    assert_eq!(b.take_events(), vec![GameEvent::FoodEaten]);
    let food = food_cells(&b);
    assert_eq!(food.len(), 1);
    for p in s.parts.iter() {
        assert_ne!((p.col, p.row), food[0]);
    }
}

#[test]
fn pop_end_clears_the_tail_cell() {
    let mut b = Board::new(10, 10);
    let mut s = Snake::new();
    s.update(&mut b);
    assert_eq!(b.get_cell(2, 2), CellType::Snake);
    s.pop_end(&mut b);
    assert_eq!(s.parts.len(), 3);
    assert_eq!(b.get_cell(2, 2), CellType::Empty);
}

#[test]
fn grow_duplicates_the_tail() {
    let mut b = Board::new(10, 10);
    let mut s = Snake::new();
    s.grow(&mut b);
    assert_eq!(s.parts.len(), 5);
    assert_eq!(s.parts[4], Part { col: 2, row: 2 });
    assert_eq!(b.get_cell(2, 2), CellType::Snake);
    assert_eq!(s.score(), 1);
}

#[test]
fn snake_reset_restores_start_configuration() {
    let mut b = Board::new(10, 10);
    let mut s = Snake::new();
    s.grow(&mut b);
    s.change_direction(Direction::Up, &mut b);
    s.update_movement(&mut b);
    s.reset();
    assert_eq!(s.parts.len(), 4);
    assert_eq!(s.parts[0], Part { col: 5, row: 2 });
    assert_eq!(s.parts[1], Part { col: 4, row: 2 });
    assert_eq!(s.parts[2], Part { col: 3, row: 2 });
    assert_eq!(s.parts[3], Part { col: 2, row: 2 });
    assert_eq!(*s.direction(), Direction::Right);
    assert_eq!(s.score(), 0);
}

#[test]
fn update_paints_head_and_body() {
    let mut b = Board::new(10, 10);
    let mut s = Snake::new();
    s.update(&mut b);
    assert_eq!(b.get_cell(5, 2), CellType::SnakeHead);
    assert_eq!(b.get_cell(4, 2), CellType::Snake);
    assert_eq!(b.get_cell(3, 2), CellType::Snake);
    assert_eq!(b.get_cell(2, 2), CellType::Snake);
}
