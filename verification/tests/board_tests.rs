use snake::{Board, CellType, GameEvent};

fn count_food(b: &Board) -> usize {
    let mut n: usize = 0;
    for c in b.cells().iter() {
        if c.cell_type() == CellType::Food {
            n += 1;
        }
    }
    n
}

#[test]
fn new_board_is_all_empty_row_major() {
    let b = Board::new(3, 4);
    assert_eq!(b.rows(), 3);
    assert_eq!(b.columns(), 4);
    assert_eq!(b.cells().len(), 12);
    for (i, c) in b.cells().iter().enumerate() {
        assert_eq!(c.cell_type(), CellType::Empty);
        assert_eq!(c.col(), i % 4);
        assert_eq!(c.row(), i / 4);
    }
    assert!(!b.game_over());
    assert!(!b.paused());
}

#[test]
fn set_and_get_cell() {
    let mut b = Board::new(4, 6);
    b.set_cell(2, 1, CellType::Food);
    assert_eq!(b.get_cell(2, 1), CellType::Food);
    assert!(b.is_food(2, 1));
    assert!(!b.is_empty(2, 1));
    assert!(!b.is_snake(2, 1));
    assert!(b.is_empty(1, 2));
    b.set_cell(2, 1, CellType::Snake);
    assert!(b.is_snake(2, 1));
    assert_eq!(count_food(&b), 0);
}

#[test]
fn generate_food_places_exactly_one() {
    let mut b = Board::new(5, 5);
    b.generate_food();
    assert_eq!(count_food(&b), 1);
    for c in b.cells().iter() {
        let t = c.cell_type();
        assert!(t == CellType::Empty || t == CellType::Food);
    }
}

#[test]
fn generate_food_never_overwrites() {
    let mut b = Board::new(2, 2);
    b.set_cell(0, 0, CellType::Snake);
    b.set_cell(1, 0, CellType::Snake);
    b.set_cell(0, 1, CellType::Snake);
    b.generate_food();
    assert_eq!(b.get_cell(0, 0), CellType::Snake);
    assert_eq!(b.get_cell(1, 0), CellType::Snake);
    assert_eq!(b.get_cell(0, 1), CellType::Snake);
    assert_eq!(b.get_cell(1, 1), CellType::Food);
}

#[test]
fn generate_food_on_single_cell_board() {
    let mut b = Board::new(1, 1);
    b.generate_food();
    assert_eq!(b.get_cell(0, 0), CellType::Food);
}

#[test]
fn toggle_pause_flips_only_the_flag() {
    let mut b = Board::new(2, 3);
    assert!(!b.paused());
    b.toggle_pause();
    assert!(b.paused());
    assert!(!b.game_over());
    b.toggle_pause();
    assert!(!b.paused());
}

#[test]
fn end_game_queues_death_once() {
    let mut b = Board::new(3, 3);
    b.end_game();
    assert!(b.game_over());
    b.end_game();
    assert!(b.game_over());
    let evs = b.take_events();
    assert_eq!(evs, vec![GameEvent::SnakeDied]);
}

#[test]
fn take_events_drains_the_queue() {
    let mut b = Board::new(3, 3);
    b.end_game();
    let evs = b.take_events();
    assert_eq!(evs.len(), 1);
    let again = b.take_events();
    assert!(again.is_empty());
}

#[test]
fn board_reset_restores_start_configuration() {
    let mut b = Board::new(6, 7);
    b.set_cell(1, 1, CellType::Snake);
    b.set_cell(2, 3, CellType::SnakeHead);
    b.set_cell(4, 5, CellType::Food);
    b.end_game();
    b.toggle_pause();
    b.reset();
    assert!(!b.game_over());
    assert!(b.paused());
    assert_eq!(count_food(&b), 1);
    for c in b.cells().iter() {
        let t = c.cell_type();
        assert!(t == CellType::Empty || t == CellType::Food);
    }
}
