use game_of_life::{Cell, Universe};

fn empty(width: u32, height: u32) -> Universe {
    let mut universe = Universe::new();
    universe.set_width(width);
    universe.set_height(height);
    universe
}

fn with_cells(width: u32, height: u32, cells: &[(u32, u32)]) -> Universe {
    let mut universe = empty(width, height);
    universe.set_cells(cells);
    universe
}

fn live_cells(universe: &Universe) -> Vec<(u32, u32)> {
    let mut live = Vec::new();
    for row in 0..universe.height() {
        for col in 0..universe.width() {
            if universe.is_alive(row, col) {
                live.push((row, col));
            }
        }
    }
    live
}

#[test]
fn new_universe_is_256_by_256_with_seed() {
    let universe = Universe::new();
    assert_eq!(universe.width(), 256);
    assert_eq!(universe.height(), 256);
    let cells = universe.get_cells();
    assert_eq!(cells.len(), 256 * 256);
    for (i, cell) in cells.iter().enumerate() {
        let expected = if i % 2 == 0 || i % 7 == 0 { Cell::Alive } else { Cell::Dead };
        assert_eq!(*cell, expected, "cell {}", i);
    }
    assert_eq!(cells[0], Cell::Alive);
    assert_eq!(cells[1], Cell::Dead);
    assert_eq!(cells[7], Cell::Alive);
    assert_eq!(cells[21], Cell::Alive);
    assert_eq!(cells[23], Cell::Dead);
}

#[test]
fn resize_stores_width_times_height_cells() {
    let mut universe = Universe::new();
    universe.set_width(7);
    assert_eq!(universe.width(), 7);
    assert_eq!(universe.height(), 256);
    assert_eq!(universe.get_cells().len(), 7 * 256);
    universe.set_height(3);
    assert_eq!(universe.width(), 7);
    assert_eq!(universe.height(), 3);
    assert_eq!(universe.get_cells().len(), 21);
    universe.set_width(40);
    assert_eq!(universe.get_cells().len(), 120);
}

#[test]
fn set_width_makes_every_cell_dead() {
    let mut universe = Universe::new();
    assert!(universe.get_cells().contains(&Cell::Alive));
    universe.set_width(10);
    let cells = universe.get_cells();
    assert_eq!(cells.len(), 2560);
    assert!(cells.iter().all(|cell| *cell == Cell::Dead));
}

#[test]
fn set_height_makes_every_cell_dead() {
    let mut universe = with_cells(6, 6, &[(0, 0), (5, 5), (2, 3)]);
    universe.set_height(6);
    assert_eq!(universe.get_cells(), vec![Cell::Dead; 36]);
}

#[test]
fn resize_to_no_cells_gives_an_empty_grid() {
    let mut universe = Universe::new();
    universe.set_width(0);
    assert_eq!(universe.get_cells(), Vec::<Cell>::new());
    assert_eq!(universe.render(), "\n".repeat(256));
    universe.tick();
    universe.set_height(0);
    assert_eq!(universe.render(), "");
    universe.set_width(3);
    assert_eq!(universe.get_cells(), Vec::<Cell>::new());
}

#[test]
fn tick_after_resize_uses_the_new_size() {
    let mut universe = Universe::new();
    universe.set_width(5);
    universe.set_height(5);
    universe.set_cells(&[(2, 1), (2, 2), (2, 3)]);
    universe.tick();
    assert_eq!(universe.get_cells().len(), 25);
    assert_eq!(live_cells(&universe), vec![(1, 2), (2, 2), (3, 2)]);
}

#[test]
fn reset_clear_then_get_cells_is_all_dead() {
    let mut universe = Universe::new();
    universe.reset_clear();
    let cells = universe.get_cells();
    assert_eq!(cells.len(), 256 * 256);
    assert!(cells.iter().all(|cell| *cell == Cell::Dead));
    assert_eq!(universe.width(), 256);
    assert_eq!(universe.height(), 256);

    let mut small = with_cells(3, 2, &[(0, 0), (1, 2)]);
    small.reset_clear();
    assert_eq!(small.get_cells(), vec![Cell::Dead; 6]);
}

#[test]
fn get_cells_is_row_major() {
    let universe = with_cells(3, 2, &[(0, 1), (1, 0)]);
    assert_eq!(
        universe.get_cells(),
        vec![Cell::Dead, Cell::Alive, Cell::Dead, Cell::Alive, Cell::Dead, Cell::Dead]
    );
}

#[test]
fn single_live_cell_is_seen_once_by_each_neighbor() {
    for &(height, width, row, col) in
        &[(5u32, 5u32, 2u32, 2u32), (3, 3, 0, 0), (4, 7, 3, 6), (6, 3, 0, 2), (8, 8, 7, 0)]
    {
        let universe = with_cells(width, height, &[(row, col)]);
        let north = if row == 0 { height - 1 } else { row - 1 };
        let south = if row == height - 1 { 0 } else { row + 1 };
        let west = if col == 0 { width - 1 } else { col - 1 };
        let east = if col == width - 1 { 0 } else { col + 1 };
        assert_eq!(universe.live_neighbor_count(row, col), 0);
        for &(r, c) in &[
            (north, west),
            (north, col),
            (north, east),
            (row, west),
            (row, east),
            (south, west),
            (south, col),
            (south, east),
        ] {
            assert_eq!(universe.live_neighbor_count(r, c), 1, "neighbor ({}, {})", r, c);
        }
    }
}

#[test]
fn cells_away_from_a_single_live_cell_see_nothing() {
    let universe = with_cells(6, 6, &[(2, 2)]);
    assert_eq!(universe.live_neighbor_count(4, 4), 0);
    assert_eq!(universe.live_neighbor_count(2, 4), 0);
    assert_eq!(universe.live_neighbor_count(0, 2), 0);
    assert_eq!(universe.live_neighbor_count(5, 5), 0);
}

#[test]
fn narrow_grids_count_a_neighbor_once_per_direction() {
    let one = with_cells(1, 1, &[(0, 0)]);
    assert_eq!(one.live_neighbor_count(0, 0), 8);

    let two_wide = with_cells(2, 5, &[(2, 0)]);
    assert_eq!(two_wide.live_neighbor_count(2, 1), 2);
    assert_eq!(two_wide.live_neighbor_count(2, 0), 0);
    assert_eq!(two_wide.live_neighbor_count(1, 0), 1);
    assert_eq!(two_wide.live_neighbor_count(1, 1), 2);

    let one_high = with_cells(5, 1, &[(0, 2)]);
    assert_eq!(one_high.live_neighbor_count(0, 2), 2);
    assert_eq!(one_high.live_neighbor_count(0, 1), 3);
}

#[test]
fn live_neighbor_count_reaches_eight() {
    let universe = with_cells(
        3,
        3,
        &[(0, 0), (0, 1), (0, 2), (1, 0), (1, 1), (1, 2), (2, 0), (2, 1), (2, 2)],
    );
    for row in 0..3 {
        for col in 0..3 {
            assert_eq!(universe.live_neighbor_count(row, col), 8);
        }
    }
}

#[test]
fn neighbors_wrap_around_the_edges() {
    let universe = with_cells(4, 4, &[(3, 3)]);
    assert_eq!(universe.live_neighbor_count(0, 0), 1);
    assert_eq!(universe.live_neighbor_count(0, 3), 1);
    assert_eq!(universe.live_neighbor_count(3, 0), 1);
    assert_eq!(universe.live_neighbor_count(1, 1), 0);
}

#[test]
fn block_is_a_still_life() {
    let block = [(1, 1), (1, 2), (2, 1), (2, 2)];
    let mut universe = with_cells(4, 4, &block);
    for &(row, col) in &block {
        assert_eq!(universe.live_neighbor_count(row, col), 3);
    }
    for row in 0..4 {
        for col in 0..4 {
            if !block.contains(&(row, col)) {
                assert_ne!(universe.live_neighbor_count(row, col), 3);
            }
        }
    }
    let before = universe.get_cells();
    universe.tick();
    assert_eq!(universe.get_cells(), before);
    assert_eq!(live_cells(&universe), block.to_vec());
}

#[test]
fn blinker_oscillates_with_period_two() {
    let horizontal = vec![(2, 1), (2, 2), (2, 3)];
    let vertical = vec![(1, 2), (2, 2), (3, 2)];
    let mut universe = with_cells(5, 5, &horizontal);
    universe.tick();
    assert_eq!(live_cells(&universe), vertical);
    universe.tick();
    assert_eq!(live_cells(&universe), horizontal);
}

#[test]
fn next_state_follows_the_rule() {
    for n in 0u8..=8 {
        assert_eq!(Universe::next_state(true, n), n == 2 || n == 3, "alive with {}", n);
        assert_eq!(Universe::next_state(false, n), n == 3, "dead with {}", n);
    }
}

#[test]
fn tick_applies_each_case_of_the_rule() {
    // A lone cell dies; an L of three gives birth to the fourth corner.
    let mut lone = with_cells(5, 5, &[(2, 2)]);
    lone.tick();
    assert_eq!(live_cells(&lone), vec![]);

    let mut corner = with_cells(6, 6, &[(1, 1), (1, 2), (2, 1)]);
    corner.tick();
    assert_eq!(live_cells(&corner), vec![(1, 1), (1, 2), (2, 1), (2, 2)]);

    // The centre of a plus has four neighbours and dies.
    let mut plus = with_cells(7, 7, &[(3, 3), (2, 3), (4, 3), (3, 2), (3, 4)]);
    plus.tick();
    assert!(!plus.is_alive(3, 3));
    assert_eq!(
        live_cells(&plus),
        vec![(2, 2), (2, 3), (2, 4), (3, 2), (3, 4), (4, 2), (4, 3), (4, 4)]
    );
}

#[test]
fn tick_reads_only_the_generation_before() {
    // A full row on a torus: every cell has two live neighbours in its row
    // and the rows above and below get three each.
    let mut universe = with_cells(4, 4, &[(1, 0), (1, 1), (1, 2), (1, 3)]);
    universe.tick();
    assert_eq!(
        live_cells(&universe),
        vec![
            (0, 0), (0, 1), (0, 2), (0, 3),
            (1, 0), (1, 1), (1, 2), (1, 3),
            (2, 0), (2, 1), (2, 2), (2, 3),
        ]
    );
}

#[test]
fn toggle_cell_flips_one_cell() {
    let mut universe = empty(4, 3);
    universe.toggle_cell(1, 2);
    assert_eq!(live_cells(&universe), vec![(1, 2)]);
    universe.toggle_cell(0, 0);
    assert_eq!(live_cells(&universe), vec![(0, 0), (1, 2)]);
    universe.toggle_cell(1, 2);
    assert_eq!(live_cells(&universe), vec![(0, 0)]);
    universe.toggle_cell(2, 3);
    assert_eq!(universe.get_cells()[11], Cell::Alive);
}

#[test]
fn cell_toggle_flips_the_state() {
    let mut cell = Cell::Dead;
    cell.toggle();
    assert_eq!(cell, Cell::Alive);
    cell.toggle();
    assert_eq!(cell, Cell::Dead);
    assert_ne!(Cell::Alive, Cell::Dead);
}

#[test]
fn set_cells_twice_is_set_cells_once() {
    let list = [(0, 0), (3, 4), (2, 2), (3, 4), (4, 0)];
    let mut once = with_cells(5, 5, &[(1, 1)]);
    once.set_cells(&list);
    let mut twice = with_cells(5, 5, &[(1, 1)]);
    twice.set_cells(&list);
    twice.set_cells(&list);
    assert_eq!(once.get_cells(), twice.get_cells());
    assert_eq!(live_cells(&once), vec![(0, 0), (1, 1), (2, 2), (3, 4), (4, 0)]);
}

#[test]
fn set_cells_ignores_the_order_of_the_list() {
    let mut forward = empty(4, 4);
    forward.set_cells(&[(0, 1), (2, 3), (3, 0)]);
    let mut backward = empty(4, 4);
    backward.set_cells(&[(3, 0), (2, 3), (0, 1)]);
    assert_eq!(forward.get_cells(), backward.get_cells());
}

#[test]
fn set_cells_leaves_unlisted_cells_alone() {
    let mut universe = with_cells(3, 3, &[(0, 0), (1, 1)]);
    universe.set_cells(&[(1, 1), (2, 2)]);
    assert_eq!(live_cells(&universe), vec![(0, 0), (1, 1), (2, 2)]);
    universe.set_cells(&[]);
    assert_eq!(live_cells(&universe), vec![(0, 0), (1, 1), (2, 2)]);
}

#[test]
fn reset_random_follows_the_samples() {
    let mut universe = with_cells(3, 2, &[(0, 0), (0, 1), (0, 2), (1, 0), (1, 1), (1, 2)]);
    universe.reset_random(&[0, 0x7FFF_FFFF, 0x8000_0000, u32::MAX, 1, 0x8000_0001]);
    assert_eq!(
        universe.get_cells(),
        vec![Cell::Alive, Cell::Alive, Cell::Dead, Cell::Dead, Cell::Alive, Cell::Dead]
    );
    universe.reset_random(&[u32::MAX; 6]);
    assert_eq!(universe.get_cells(), vec![Cell::Dead; 6]);
}

#[test]
fn render_draws_one_line_per_row() {
    let universe = with_cells(3, 2, &[(0, 1), (1, 0), (1, 2)]);
    assert_eq!(universe.render(), "◻◼◻\n◼◻◼\n");
    assert_eq!(empty(2, 1).render(), "◻◻\n");
    assert_eq!(with_cells(1, 3, &[(1, 0)]).render(), "◻\n◼\n◻\n");
}

#[test]
fn cells_packs_thirty_two_bits_to_a_block() {
    let universe = with_cells(8, 5, &[(0, 0), (0, 3), (3, 7), (4, 0), (4, 7)]);
    // Flat positions 0, 3, 31, 32 and 39.
    assert_eq!(universe.cells(), &[0x8000_0009u32, 0x0000_0081u32][..]);
    assert_eq!(empty(4, 4).cells(), &[0u32][..]);
    assert_eq!(empty(8, 4).cells().len(), 1);
    assert_eq!(empty(11, 3).cells().len(), 2);
    assert_eq!(empty(0, 3).cells().len(), 0);
}

#[test]
fn empty_grid_stays_empty() {
    let mut universe = empty(9, 4);
    universe.tick();
    assert_eq!(universe.get_cells(), vec![Cell::Dead; 36]);
    assert_eq!(universe.width(), 9);
    assert_eq!(universe.height(), 4);
}

#[test]
fn toggling_twice_restores_the_grid() {
    let mut universe = with_cells(5, 4, &[(0, 0), (2, 3), (3, 4)]);
    let before = universe.get_cells();
    universe.toggle_cell(2, 3);
    assert_ne!(universe.get_cells(), before);
    universe.toggle_cell(2, 3);
    assert_eq!(universe.get_cells(), before);
    universe.toggle_cell(1, 1);
    universe.toggle_cell(1, 1);
    assert_eq!(universe.get_cells(), before);
}

#[test]
fn tick_on_the_seed_matches_a_count_by_modular_steps() {
    let mut universe = Universe::new();
    let before: Vec<bool> = universe.get_cells().iter().map(|cell| *cell == Cell::Alive).collect();
    universe.tick();
    let after = universe.get_cells();
    assert_eq!(after.len(), 65536);
    for row in 0..256usize {
        for col in 0..256usize {
            let mut count = 0;
            for d_row in [255usize, 0, 1] {
                for d_col in [255usize, 0, 1] {
                    if d_row == 0 && d_col == 0 {
                        continue;
                    }
                    if before[((row + d_row) % 256) * 256 + (col + d_col) % 256] {
                        count += 1;
                    }
                }
            }
            let alive = before[row * 256 + col];
            let expected = if alive { count == 2 || count == 3 } else { count == 3 };
            assert_eq!(after[row * 256 + col] == Cell::Alive, expected, "({}, {})", row, col);
        }
    }
}

#[test]
fn tick_keeps_the_size() {
    let mut universe = with_cells(7, 3, &[(0, 0), (1, 1), (2, 2), (1, 6)]);
    universe.tick();
    assert_eq!(universe.width(), 7);
    assert_eq!(universe.height(), 3);
    assert_eq!(universe.get_cells().len(), 21);
}
