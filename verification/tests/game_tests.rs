use cgol::{Cell, Game};

#[test]
fn new_yields_all_dead_cells() {
    let game = Game::new(3, 4);
    assert_eq!(game.width(), 3);
    assert_eq!(game.height(), 4);
    assert_eq!(game.area(), 12);
    assert!(game.all_dead());
    for row in 0..4 {
        for col in 0..3 {
            assert_eq!(game.get(row, col), Some(Cell::Dead));
        }
    }
}

#[test]
fn get_and_index_agree() {
    let mut game = Game::new(5, 5);
    *game.index_mut(2, 3) = Cell::Alive;
    assert_eq!(game.index(2, 3), Cell::Alive);
    assert_eq!(game.get(2, 3), Some(Cell::Alive));
    assert_eq!(game.index(0, 0), Cell::Dead);
}

#[test]
fn out_of_bounds_get_is_none() {
    let mut game = Game::new(10, 10);
    assert_eq!(game.get(2, 3), Some(Cell::Dead));
    assert_eq!(game.get(69, 420), None);
    assert!(game.get_mut(69, 420).is_none());
    assert_eq!(game.get(10, 0), None);
    assert_eq!(game.get(0, 10), None);
}

#[test]
fn get_mut_writes_cells() {
    let mut game = Game::new(3, 3);
    if let Some(cell) = game.get_mut(0, 0) {
        *cell = Cell::Alive;
    }
    assert_eq!(game.get(0, 0), Some(Cell::Alive));
    assert_eq!(game.get(0, 1), Some(Cell::Dead));
}

#[test]
fn get_row_returns_the_row_in_column_order() {
    let mut game = Game::new(3, 5);
    assert_eq!(game.get_row(0), &[Cell::Dead, Cell::Dead, Cell::Dead]);
    *game.index_mut(1, 0) = Cell::Alive;
    *game.index_mut(1, 2) = Cell::Alive;
    assert_eq!(game.get_row(1), &[Cell::Alive, Cell::Dead, Cell::Alive]);
}

#[test]
fn get_row_mut_writes_through_the_slice() {
    let mut game = Game::new(3, 5);
    let row = game.get_row_mut(0);
    row[0] = Cell::Alive;
    assert_eq!(game.get_row(0), &[Cell::Alive, Cell::Dead, Cell::Dead]);
    assert_eq!(game.get_row(1), &[Cell::Dead, Cell::Dead, Cell::Dead]);
}

#[test]
fn row_yields_width_cells_in_column_order() {
    let mut game = Game::new(3, 2);
    *game.index_mut(0, 0) = Cell::Alive;
    *game.index_mut(0, 2) = Cell::Alive;
    let mut row = game.row(0);
    assert_eq!(row.remaining(), 3);
    assert_eq!(row.next(), Some(Cell::Alive));
    assert_eq!(row.next(), Some(Cell::Dead));
    assert_eq!(row.next(), Some(Cell::Alive));
    assert_eq!(row.next(), None);
}

#[test]
fn row_and_get_row_produce_identical_sequences() {
    let mut game = Game::new(4, 3);
    *game.index_mut(1, 0) = Cell::Alive;
    *game.index_mut(1, 3) = Cell::Alive;
    for r in 0..3 {
        let slice = game.get_row(r).to_vec();
        let mut cursor = game.row(r);
        let mut collected = Vec::new();
        while let Some(cell) = cursor.next() {
            collected.push(cell);
        }
        assert_eq!(collected, slice);
    }
}

#[test]
fn col_yields_height_cells_in_row_order() {
    let mut game = Game::new(7, 3);
    *game.index_mut(1, 0) = Cell::Alive;
    let mut col = game.col(0);
    assert_eq!(col.remaining(), 3);
    assert_eq!(col.next(), Some(Cell::Dead));
    assert_eq!(col.next(), Some(Cell::Alive));
    assert_eq!(col.next(), Some(Cell::Dead));
    assert_eq!(col.next(), None);
}

#[test]
fn cursor_restart_goes_back_to_the_front() {
    let mut game = Game::new(2, 2);
    *game.index_mut(0, 1) = Cell::Alive;
    let mut row = game.row(0);
    assert_eq!(row.next(), Some(Cell::Dead));
    assert_eq!(row.next(), Some(Cell::Alive));
    assert_eq!(row.next(), None);
    row.restart();
    assert_eq!(row.remaining(), 2);
    assert_eq!(row.next(), Some(Cell::Dead));
}

#[test]
fn row_mut_fills_one_row_only() {
    let mut game = Game::new(3, 5);
    game.row_mut(0, Cell::Alive);
    assert_eq!(game.get_row(0), &[Cell::Alive, Cell::Alive, Cell::Alive]);
    assert_eq!(game.get_row(1), &[Cell::Dead, Cell::Dead, Cell::Dead]);
}

#[test]
fn col_mut_fills_one_column_only() {
    let mut game = Game::new(7, 3);
    game.col_mut(0, Cell::Alive);
    for r in 0..3 {
        assert_eq!(game.get(r, 0), Some(Cell::Alive));
        assert_eq!(game.get(r, 1), Some(Cell::Dead));
    }
}

#[test]
fn clear_makes_all_dead() {
    let mut game = Game::new(10, 10);
    *game.index_mut(0, 0) = Cell::Alive;
    assert!(!game.all_dead());
    game.clear();
    assert!(game.all_dead());
    assert_eq!(game.get(0, 0), Some(Cell::Dead));
}

#[test]
fn invert_on_all_dead_makes_all_alive() {
    let mut game = Game::new(10, 10);
    assert!(game.all_dead());
    assert!(!game.all_alive());
    game.invert();
    assert!(game.all_alive());
    assert!(!game.all_dead());
}

#[test]
fn invert_toggles_each_cell() {
    let mut game = Game::new(2, 2);
    *game.index_mut(0, 1) = Cell::Alive;
    game.invert();
    assert_eq!(game.get(0, 0), Some(Cell::Alive));
    assert_eq!(game.get(0, 1), Some(Cell::Dead));
    assert_eq!(game.get(1, 0), Some(Cell::Alive));
    assert_eq!(game.get(1, 1), Some(Cell::Alive));
}

#[test]
fn block_is_a_still_life() {
    let mut game = Game::new(4, 4);
    *game.index_mut(1, 1) = Cell::Alive;
    *game.index_mut(1, 2) = Cell::Alive;
    *game.index_mut(2, 1) = Cell::Alive;
    *game.index_mut(2, 2) = Cell::Alive;
    game.tick();
    for row in 0..4 {
        for col in 0..4 {
            let expected = if (1..=2).contains(&row) && (1..=2).contains(&col) {
                Cell::Alive
            } else {
                Cell::Dead
            };
            assert_eq!(game.get(row, col), Some(expected));
        }
    }
}

#[test]
fn block_dies_when_an_axis_has_length_two() {
    // On a 2-wide torus the wrapped neighbor positions of a block cell
    // coincide, every live cell counts more than 3 live neighbors, and the
    // whole block dies: the still-life property needs both dimensions >= 3.
    let mut game = Game::new(2, 3);
    *game.index_mut(0, 0) = Cell::Alive;
    *game.index_mut(0, 1) = Cell::Alive;
    *game.index_mut(1, 0) = Cell::Alive;
    *game.index_mut(1, 1) = Cell::Alive;
    game.tick();
    assert!(game.all_dead());
}

#[test]
fn isolated_cell_dies_after_one_tick() {
    let mut game = Game::new(5, 5);
    *game.index_mut(2, 2) = Cell::Alive;
    game.tick();
    assert!(game.all_dead());
}

#[test]
fn toroidal_wrap_births_the_corner_cell() {
    // On a 3×3 grid the three far corners are all wrapped neighbors of
    // (0, 0): exactly 3 of its neighbors are live while (0, 0) is dead, so
    // (0, 0) is born.
    let mut game = Game::new(3, 3);
    *game.index_mut(0, 2) = Cell::Alive;
    *game.index_mut(2, 0) = Cell::Alive;
    *game.index_mut(2, 2) = Cell::Alive;
    assert_eq!(game.get(0, 0), Some(Cell::Dead));
    game.tick();
    assert_eq!(game.get(0, 0), Some(Cell::Alive));
}

#[test]
fn blinker_oscillates() {
    // A horizontal line of three cells becomes a vertical line.
    let mut game = Game::new(5, 5);
    *game.index_mut(2, 1) = Cell::Alive;
    *game.index_mut(2, 2) = Cell::Alive;
    *game.index_mut(2, 3) = Cell::Alive;
    game.tick();
    for row in 0..5 {
        for col in 0..5 {
            let expected = if col == 2 && (1..=3).contains(&row) {
                Cell::Alive
            } else {
                Cell::Dead
            };
            assert_eq!(game.get(row, col), Some(expected));
        }
    }
    game.tick();
    for col in 0..5 {
        let expected = if (1..=3).contains(&col) { Cell::Alive } else { Cell::Dead };
        assert_eq!(game.get(2, col), Some(expected));
    }
}

#[test]
fn fill_random_certain_chance_fills_everything() {
    let mut game = Game::new(10, 10);
    game.fill_random(1, 1);
    assert!(game.all_alive());
    game.fill_random(0, 1);
    assert!(game.all_dead());
}

#[test]
fn fill_random_keeps_the_shape() {
    let mut game = Game::new(8, 6);
    game.fill_random(1, 2);
    assert_eq!(game.width(), 8);
    assert_eq!(game.height(), 6);
    assert_eq!(game.area(), 48);
}
