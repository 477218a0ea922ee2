use game_of_life::{Cell, Universe};

fn blank(width: u32, height: u32) -> Universe {
    let mut universe = Universe::new();
    universe.set_width(width);
    universe.set_height(height);
    universe
}

fn alive_at(universe: &Universe) -> Vec<(u32, u32)> {
    let mut live = Vec::new();
    for row in 0..universe.height() {
        for col in 0..universe.width() {
            if universe.is_alive(row, col) {
                live.push((row, col));
            }
        }
    }
    live
}

fn shifted(cells: &[(u32, u32)], height: u32, width: u32, down: u32, right: u32) -> Vec<(u32, u32)> {
    let mut moved: Vec<(u32, u32)> =
        cells.iter().map(|&(row, col)| ((row + down) % height, (col + right) % width)).collect();
    moved.sort();
    moved
}

#[test]
fn glider_has_five_cells_around_the_anchor() {
    let mut universe = blank(8, 8);
    universe.insert_glider_at_pos(3, 3);
    assert_eq!(alive_at(&universe), vec![(2, 3), (3, 2), (4, 2), (4, 3), (4, 4)]);
}

#[test]
fn glider_wraps_at_the_corner() {
    let mut universe = blank(6, 5);
    universe.insert_glider_at_pos(0, 0);
    assert_eq!(alive_at(&universe), vec![(0, 5), (1, 0), (1, 1), (1, 5), (4, 0)]);

    let mut other = blank(6, 5);
    other.insert_glider_at_pos(4, 5);
    assert_eq!(alive_at(&other), vec![(0, 0), (0, 4), (0, 5), (3, 5), (4, 4)]);
}

#[test]
fn glider_overwrites_its_whole_footprint() {
    let mut universe = Universe::new();
    universe.set_width(5);
    universe.set_height(5);
    let all: Vec<(u32, u32)> = (0..5).flat_map(|row| (0..5).map(move |col| (row, col))).collect();
    universe.set_cells(&all);
    universe.insert_glider_at_pos(2, 2);
    let cells = universe.get_cells();
    let expected_inside = [
        (1, 1, Cell::Dead), (1, 2, Cell::Alive), (1, 3, Cell::Dead),
        (2, 1, Cell::Alive), (2, 2, Cell::Dead), (2, 3, Cell::Dead),
        (3, 1, Cell::Alive), (3, 2, Cell::Alive), (3, 3, Cell::Alive),
    ];
    for &(row, col, cell) in &expected_inside {
        assert_eq!(cells[row * 5 + col], cell, "({}, {})", row, col);
    }
    for row in 0..5 {
        for col in 0..5 {
            if row == 0 || row == 4 || col == 0 || col == 4 {
                assert_eq!(cells[row * 5 + col], Cell::Alive);
            }
        }
    }
}

#[test]
fn glider_on_a_tiny_grid_keeps_the_last_write() {
    // On one cell all nine writes hit it; the last offset (1, 1) is alive.
    let mut one = blank(1, 1);
    one.insert_glider_at_pos(0, 0);
    assert_eq!(alive_at(&one), vec![(0, 0)]);

    // Two rows: offsets `height - 1` and 1 are the same row.
    let mut two = blank(4, 2);
    two.insert_glider_at_pos(0, 1);
    assert_eq!(alive_at(&two), vec![(0, 0), (1, 0), (1, 1), (1, 2)]);
}

#[test]
fn glider_drifts_one_row_down_and_one_column_back_in_four_ticks() {
    for &(height, width, row, col) in
        &[(8u32, 8u32, 3u32, 3u32), (5, 5, 0, 0), (5, 9, 4, 8), (12, 6, 11, 0), (7, 5, 3, 4)]
    {
        let mut universe = blank(width, height);
        universe.insert_glider_at_pos(row, col);
        let start = alive_at(&universe);
        assert_eq!(start.len(), 5);
        for _ in 0..4 {
            universe.tick();
        }
        assert_eq!(alive_at(&universe), shifted(&start, height, width, 1, width - 1));

        let mut stamped = blank(width, height);
        stamped.insert_glider_at_pos((row + 1) % height, (col + width - 1) % width);
        assert_eq!(universe.get_cells(), stamped.get_cells());
    }
}

#[test]
fn glider_returns_after_a_full_lap() {
    let mut universe = blank(5, 5);
    universe.insert_glider_at_pos(2, 2);
    let start = universe.get_cells();
    for _ in 0..20 {
        universe.tick();
    }
    assert_eq!(universe.get_cells(), start);
}

fn pulsar_cells() -> Vec<(u32, u32)> {
    let bar = [2u32, 3, 4, 8, 9, 10];
    let rail = [0u32, 5, 7, 12];
    let mut cells = Vec::new();
    for &r in &rail {
        for &c in &bar {
            cells.push((r, c));
            cells.push((c, r));
        }
    }
    cells.sort();
    cells
}

#[test]
fn pulsar_stamps_the_template() {
    let mut universe = blank(17, 17);
    assert!(universe.pulsar_fits(8, 8));
    universe.insert_pulsar_at_pos(8, 8);
    let expected = shifted(&pulsar_cells(), 17, 17, 2, 2);
    assert_eq!(expected.len(), 48);
    assert_eq!(alive_at(&universe), expected);
    assert_eq!(
        universe.render().lines().nth(2).unwrap(),
        "◻◻◻◻◼◼◼◻◻◻◼◼◼◻◻◻◻"
    );
    assert_eq!(
        universe.render().lines().nth(4).unwrap(),
        "◻◻◼◻◻◻◻◼◻◼◻◻◻◻◼◻◻"
    );
    assert_eq!(universe.render().lines().nth(3).unwrap(), "◻".repeat(17));
}

#[test]
fn pulsar_oscillates_with_period_three() {
    let mut universe = blank(17, 17);
    universe.insert_pulsar_at_pos(8, 8);
    let start = universe.get_cells();
    universe.tick();
    assert_ne!(universe.get_cells(), start);
    universe.tick();
    assert_ne!(universe.get_cells(), start);
    universe.tick();
    assert_eq!(universe.get_cells(), start);
}

#[test]
fn pulsar_overwrites_its_whole_footprint() {
    let mut universe = blank(15, 15);
    let all: Vec<(u32, u32)> = (0..15).flat_map(|row| (0..15).map(move |col| (row, col))).collect();
    universe.set_cells(&all);
    universe.insert_pulsar_at_pos(7, 7);
    let mut expected = shifted(&pulsar_cells(), 15, 15, 1, 1);
    for i in 0..15 {
        expected.extend_from_slice(&[(0, i), (14, i)]);
        if i != 0 && i != 14 {
            expected.extend_from_slice(&[(i, 0), (i, 14)]);
        }
    }
    expected.sort();
    assert_eq!(alive_at(&universe), expected);
}

#[test]
fn pulsar_rows_wrap_around_the_grid() {
    let mut universe = blank(13, 16);
    assert!(universe.pulsar_fits(2, 6));
    universe.insert_pulsar_at_pos(2, 6);
    // Template row 0 lands on row (2 - 6) mod 16 = 12.
    let expected = shifted(&pulsar_cells(), 16, 13, 12, 0);
    assert_eq!(alive_at(&universe), expected);
}

#[test]
fn pulsar_columns_do_not_wrap() {
    // With the anchor in column 3 each stamped row starts three flat
    // positions before its own row's start, in the row above.
    let mut universe = blank(20, 20);
    assert!(universe.pulsar_fits(10, 3));
    universe.insert_pulsar_at_pos(10, 3);
    let mut expected: Vec<(u32, u32)> = Vec::new();
    for (d_row, d_col) in pulsar_cells() {
        let flat = (4 + d_row) * 20 + 3 + d_col - 6;
        expected.push((flat / 20, flat % 20));
    }
    expected.sort();
    assert_eq!(alive_at(&universe), expected);
    assert!(universe.is_alive(3, 19));
    assert!(!universe.is_alive(4, 17));
}

#[test]
fn pulsar_fits_tells_when_the_stamp_stays_inside() {
    let universe = blank(20, 20);
    assert!(universe.pulsar_fits(10, 10));
    assert!(universe.pulsar_fits(7, 5));
    assert!(universe.pulsar_fits(13, 13));
    // Row 0 is stamped and has fewer than six positions before column 5.
    assert!(!universe.pulsar_fits(6, 5));
    assert!(!universe.pulsar_fits(5, 5));
    assert!(universe.pulsar_fits(5, 6));
    // Row 19 is stamped and has fewer than six positions after column 14.
    assert!(!universe.pulsar_fits(14, 14));
    assert!(universe.pulsar_fits(14, 13));

    // A grid lower than the stamp has all its rows stamped.
    let low = blank(13, 4);
    assert!(low.pulsar_fits(0, 6));
    assert!(!low.pulsar_fits(0, 5));
    assert!(!low.pulsar_fits(0, 7));
    assert!(!blank(12, 30).pulsar_fits(0, 6));
    assert!(blank(12, 30).pulsar_fits(10, 6));
}

#[test]
fn pulsar_on_a_low_grid_keeps_the_later_rows() {
    // Four rows take 13 template rows: row r ends with the last template
    // row d with (d - 6) mod 4 == r, that is 10, 11, 12 and 9 for rows 0..4.
    let mut universe = blank(13, 4);
    universe.insert_pulsar_at_pos(0, 6);
    let rail = [0u32, 5, 7, 12];
    let mut expected: Vec<(u32, u32)> = Vec::new();
    for &col in &rail {
        expected.push((0, col));
        expected.push((3, col));
    }
    for &col in &[2u32, 3, 4, 8, 9, 10] {
        expected.push((2, col));
    }
    expected.sort();
    assert_eq!(alive_at(&universe), expected);
}
