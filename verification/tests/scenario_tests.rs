use snake::{Board, CellType, Direction, Part, Snake};

#[test]
fn ten_by_ten_eats_the_food_ahead() {
    let mut b = Board::new(10, 10);
    let mut s = Snake::new();
    assert_eq!(s.parts[0], Part { col: 5, row: 2 });
    assert_eq!(*s.direction(), Direction::Right);
    b.set_cell(6, 2, CellType::Food);

    // One tick: paint the body, then step onto the food cell.
    s.update(&mut b);
    s.update_movement(&mut b);
    assert_eq!(s.parts[0], Part { col: 6, row: 2 });
    assert!(!b.game_over());

    // The next tick's update finds the head on food: the body grows, the
    // head cell is repainted, and fresh food lies on some other cell.
    s.update(&mut b);
    assert_eq!(b.get_cell(6, 2), CellType::SnakeHead);
    assert_eq!(s.parts.len(), 5);
    assert_eq!(s.score(), 1);

    let mut food: Vec<(usize, usize)> = Vec::new();
    for c in b.cells().iter() {
        if c.cell_type() == CellType::Food {
            food.push((c.col(), c.row()));
        }
    }
    assert_eq!(food.len(), 1);
    assert_ne!(food[0], (6, 2));
    for p in s.parts.iter() {
        assert_ne!((p.col, p.row), food[0]);
    }
}

#[test]
fn full_session_runs_and_restarts() {
    let mut b = Board::new(10, 10);
    let mut s = Snake::new();
    b.generate_food();

    for _ in 0..25 {
        if b.game_over() {
            break;
        }
        s.update(&mut b);
        s.update_movement(&mut b);
    }

    b.reset();
    s.reset();
    assert!(!b.game_over());
    assert_eq!(s.parts.len(), 4);
    assert_eq!(*s.direction(), Direction::Right);
    let mut food_count: usize = 0;
    for c in b.cells().iter() {
        match c.cell_type() {
            CellType::Food => food_count += 1,
            CellType::Empty => {}
            _ => panic!("reset left a snake cell behind"),
        }
    }
    assert_eq!(food_count, 1);
}
