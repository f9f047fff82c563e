use game_of_life::game::{Cell, CellKind, Game};

fn alive_positions(game: &Game) -> Vec<(u16, u16)> {
    game.cells()
        .into_iter()
        .filter(|(cell, _)| cell.is_alive())
        .map(|(_, pos)| pos)
        .collect()
}

#[test]
fn it_resizes_if_larger() {
    let mut game = Game::with_cells(vec![
        vec![Cell::new(0, 0), Cell::new(1, 0), Cell::new(2, 0)],
        vec![Cell::new(0, 1), Cell::new(1, 1), Cell::new(2, 1)],
    ]);

    game.resize_if_larger(4, 3);

    let expected = Game::with_cells(vec![
        vec![
            Cell::new(0, 0),
            Cell::new(1, 0),
            Cell::new(2, 0),
            Cell::new(3, 0),
        ],
        vec![
            Cell::new(0, 1),
            Cell::new(1, 1),
            Cell::new(2, 1),
            Cell::new(3, 1),
        ],
        vec![
            Cell::new(0, 2),
            Cell::new(1, 2),
            Cell::new(2, 2),
            Cell::new(3, 2),
        ],
    ]);
    assert_eq!(game.cells(), expected.cells())
}

#[test]
fn corner_of_empty_grid_has_no_neighbours() {
    let game = Game::new(5, 4);
    assert_eq!(game.get_neighbours_count_at_pos(0, 0), 0);
    assert_eq!(game.get_neighbours_count_at_pos(4, 0), 0);
    assert_eq!(game.get_neighbours_count_at_pos(0, 3), 0);
    assert_eq!(game.get_neighbours_count_at_pos(4, 3), 0);
}

#[test]
fn interior_of_all_alive_grid_has_eight_neighbours() {
    let mut game = Game::new(3, 3);
    for y in 0..3 {
        for x in 0..3 {
            assert_eq!(game.revive_cell_at_pos(x, y), Some(()));
        }
    }
    assert_eq!(game.get_neighbours_count_at_pos(1, 1), 8);
}

#[test]
fn resize_within_current_bounds_is_a_noop() {
    let mut game = Game::new(4, 3);
    game.revive_cell_at_pos(2, 1);
    game.revive_cell_at_pos(0, 0);
    let before = game.cells();

    game.resize_if_larger(3, 2);
    assert_eq!(game.cells(), before);

    game.resize_if_larger(4, 3);
    assert_eq!(game.cells(), before);
}

#[test]
fn resize_grows_with_dead_cells_and_keeps_state() {
    let mut game = Game::new(2, 2);
    game.revive_cell_at_pos(0, 0);
    game.revive_cell_at_pos(1, 1);

    game.resize_if_larger(4, 5);

    let cells = game.cells();
    assert_eq!(cells.len(), 20);
    for (cell, (x, y)) in &cells {
        let expected_alive = (*x, *y) == (0, 0) || (*x, *y) == (1, 1);
        assert_eq!(cell.is_alive(), expected_alive);
    }
    assert_eq!(alive_positions(&game), vec![(0, 0), (1, 1)]);

    // Growth is monotonic over repeated calls: a later, smaller request
    // changes nothing.
    game.resize_if_larger(3, 4);
    assert_eq!(game.cells().len(), 20);
}

#[test]
fn revive_shows_one_alive_and_is_idempotent() {
    let mut game = Game::new(3, 3);

    assert_eq!(game.revive_cell_at_pos(1, 2), Some(()));
    assert_eq!(alive_positions(&game), vec![(1, 2)]);
    let once = game.cells();

    assert_eq!(game.revive_cell_at_pos(1, 2), Some(()));
    assert_eq!(game.cells(), once);

    assert_eq!(game.kill_cell_at_pos(1, 2), Some(()));
    assert_eq!(alive_positions(&game), Vec::<(u16, u16)>::new());
    let killed = game.cells();

    assert_eq!(game.kill_cell_at_pos(1, 2), Some(()));
    assert_eq!(game.cells(), killed);
}

#[test]
fn glider_advances_one_generation_and_translates_in_four() {
    let mut game = Game::new(5, 5);
    for (x, y) in [(1, 0), (2, 1), (0, 2), (1, 2), (2, 2)] {
        assert_eq!(game.revive_cell_at_pos(x, y), Some(()));
    }

    game.tick();
    assert_eq!(
        alive_positions(&game),
        vec![(0, 1), (2, 1), (1, 2), (2, 2), (1, 3)]
    );

    game.tick();
    game.tick();
    game.tick();
    // The starting shape, translated by one cell diagonally.
    assert_eq!(
        alive_positions(&game),
        vec![(2, 1), (3, 2), (1, 3), (2, 3), (3, 3)]
    );
}

#[test]
fn lone_cell_dies_of_underpopulation() {
    let mut game = Game::new(3, 3);
    assert_eq!(game.revive_cell_at_pos(1, 1), Some(()));

    game.tick();
    assert_eq!(alive_positions(&game), Vec::<(u16, u16)>::new());
}

#[test]
fn block_is_a_still_life() {
    let mut game = Game::new(4, 4);
    for (x, y) in [(1, 1), (2, 1), (1, 2), (2, 2)] {
        assert_eq!(game.revive_cell_at_pos(x, y), Some(()));
    }
    let block = game.cells();

    for _ in 0..5 {
        game.tick();
        assert_eq!(game.cells(), block);
    }
}

#[test]
fn out_of_bounds_positions_are_not_found() {
    let mut game = Game::new(2, 2);
    let before = game.cells();

    assert_eq!(game.revive_cell_at_pos(2, 0), None);
    assert_eq!(game.revive_cell_at_pos(0, 2), None);
    assert_eq!(game.kill_cell_at_pos(10, 10), None);
    assert_eq!(game.cells(), before);
}

#[test]
fn degenerate_grids_are_harmless() {
    let mut empty = Game::new(0, 0);
    assert_eq!(empty.cells().len(), 0);
    assert_eq!(empty.revive_cell_at_pos(0, 0), None);
    empty.tick();
    assert_eq!(empty.cells().len(), 0);

    empty.resize_if_larger(3, 2);
    assert_eq!(empty.cells().len(), 6);
    assert_eq!(alive_positions(&empty), Vec::<(u16, u16)>::new());
}

#[test]
fn narrow_grids_count_neighbours_symmetrically() {
    let mut single = Game::new(1, 1);
    single.revive_cell_at_pos(0, 0);
    assert_eq!(single.get_neighbours_count_at_pos(0, 0), 0);

    let mut row = Game::new(3, 1);
    row.revive_cell_at_pos(0, 0);
    row.revive_cell_at_pos(2, 0);
    assert_eq!(row.get_neighbours_count_at_pos(1, 0), 2);
    assert_eq!(row.get_neighbours_count_at_pos(0, 0), 0);

    let mut column = Game::new(1, 3);
    column.revive_cell_at_pos(0, 1);
    assert_eq!(column.get_neighbours_count_at_pos(0, 0), 1);
    assert_eq!(column.get_neighbours_count_at_pos(0, 2), 1);
}

#[test]
fn enumeration_is_row_major_with_matching_coordinates() {
    let game = Game::new(3, 2);
    let cells = game.cells();
    let positions: Vec<(u16, u16)> = cells.iter().map(|(_, pos)| *pos).collect();
    assert_eq!(
        positions,
        vec![(0, 0), (1, 0), (2, 0), (0, 1), (1, 1), (2, 1)]
    );
    for (cell, (x, y)) in &cells {
        assert_eq!(*cell, Cell::new(*x, *y));
    }
}

#[test]
fn cell_states_flip_and_report() {
    let mut cell = Cell::new(2, 3);
    assert!(!cell.is_alive());
    cell.live();
    assert!(cell.is_alive());
    assert_eq!(cell, Cell::new_alive(2, 3));
    cell.die();
    assert!(!cell.is_alive());
    assert_eq!(cell, Cell::new(2, 3));
    assert_eq!(cell.kind, CellKind::Dead);
}
