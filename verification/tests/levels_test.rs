use rust_webgpu_game::levels::{level_cell, level_layout, BRICK_COLS, BRICK_ROWS, UNBREAKABLE};

/// The level patterns written with `f32` normalised coordinates.
fn float_cell(level: u32, row: usize, col: usize) -> u8 {
    let nx = col as f32 / (BRICK_COLS - 1) as f32;
    let ny = row as f32 / (BRICK_ROWS - 1) as f32;
    match level {
        1 => {
            let band = ((1.0 - ny) * 3.0).ceil() as u8;
            band.clamp(1, 3)
        }
        2 => {
            let dist = (nx - 0.5).abs() + (ny - 0.32).abs() * 0.7;
            if dist > 0.52 {
                0
            } else if dist < 0.10 {
                3
            } else if dist < 0.26 {
                2
            } else {
                1
            }
        }
        _ => level_cell(level, row, col),
    }
}

#[test]
fn float_patterns_agree_on_a_wide_grid() {
    for level in 1..=2 {
        for row in 0..80 {
            for col in 0..100 {
                assert_eq!(level_cell(level, row, col), float_cell(level, row, col), "level {level} ({row},{col})");
            }
        }
    }
    assert_eq!(level_cell(1, usize::MAX, 0), 1);
    assert_eq!(level_cell(2, usize::MAX, usize::MAX), 0);
}

#[test]
fn level_one_bands() {
    assert_eq!(level_cell(1, 0, 0), 3);
    assert_eq!(level_cell(1, 6, 31), 3);
    assert_eq!(level_cell(1, 7, 5), 2);
    assert_eq!(level_cell(1, 13, 5), 2);
    assert_eq!(level_cell(1, 14, 5), 1);
    assert_eq!(level_cell(1, 21, 5), 1);
}

#[test]
fn level_two_diamond() {
    assert_eq!(level_cell(2, 7, 15), 3);
    assert_eq!(level_cell(2, 7, 0), 1);
    assert_eq!(level_cell(2, 0, 0), 0);
    assert_eq!(level_cell(2, 21, 15), 1);
    assert_eq!(level_cell(2, 21, 13), 0);
    assert_eq!(level_cell(2, 5, 13), 2);
}

#[test]
fn level_three_pillars() {
    assert_eq!(level_cell(3, 5, 8), UNBREAKABLE);
    assert_eq!(level_cell(3, 5, 24), UNBREAKABLE);
    assert_eq!(level_cell(3, 8, 8), 1);
    assert_eq!(level_cell(3, 4, 8), 1);
    assert_eq!(level_cell(3, 18, 8), 1);
    assert_eq!(level_cell(3, 21, 3), 0);
    assert_eq!(level_cell(3, 2, 3), 2);
}

#[test]
fn level_four_columns() {
    assert_eq!(level_cell(4, 0, 8), UNBREAKABLE);
    assert_eq!(level_cell(4, 1, 8), 2);
    assert_eq!(level_cell(4, 2, 23), UNBREAKABLE);
    assert_eq!(level_cell(4, 0, 0), UNBREAKABLE);
    assert_eq!(level_cell(4, 0, 31), UNBREAKABLE);
    assert_eq!(level_cell(4, 0, 2), 1);
    assert_eq!(level_cell(4, 3, 2), 2);
    assert_eq!(level_cell(4, 19, 8), 1);
    assert_eq!(level_cell(4, 21, 8), 0);
}

#[test]
fn level_five_and_beyond() {
    for level in [0, 5, 6, 100] {
        assert_eq!(level_cell(level, 0, 0), UNBREAKABLE);
        assert_eq!(level_cell(level, 0, 5), 3);
        assert_eq!(level_cell(level, 7, 8), UNBREAKABLE);
        assert_eq!(level_cell(level, 7, 9), 1 + ((7 + 9) % 3) as u8);
        assert_eq!(level_cell(level, 7, 23), UNBREAKABLE);
        assert_eq!(level_cell(level, 20, 0), 1);
    }
}

#[test]
fn no_steel_floor_and_a_middle_passage() {
    for level in 1..=5 {
        for col in 0..BRICK_COLS {
            for row in BRICK_ROWS - 3..BRICK_ROWS {
                assert_ne!(level_cell(level, row, col), UNBREAKABLE);
            }
        }
        for row in 0..BRICK_ROWS {
            assert_ne!(level_cell(level, row, BRICK_COLS / 2), UNBREAKABLE);
        }
    }
}

#[test]
fn cell_values_are_empty_steel_or_hit_points() {
    for level in 0..=6 {
        let mut breakable = 0;
        for row in 0..BRICK_ROWS {
            for col in 0..BRICK_COLS {
                let c = level_cell(level, row, col);
                assert!(c == 0 || c == UNBREAKABLE || (1..=3).contains(&c));
                if c != 0 && c != UNBREAKABLE {
                    breakable += 1;
                }
            }
        }
        assert!(breakable > 0);
    }
}

#[test]
fn layout_lists_non_empty_cells_in_order() {
    for level in 1..=5 {
        let bricks = level_layout(level);
        let mut expected = Vec::new();
        for row in 0..BRICK_ROWS {
            for col in 0..BRICK_COLS {
                let c = level_cell(level, row, col);
                if c != 0 {
                    expected.push((row, col, if c == UNBREAKABLE { 1 } else { c }, c == UNBREAKABLE));
                }
            }
        }
        assert_eq!(bricks.len(), expected.len());
        for (b, e) in bricks.iter().zip(expected.iter()) {
            assert_eq!((b.row, b.col, b.hp, b.unbreakable), *e);
            assert_eq!(b.max_hp, b.hp);
            assert!(b.alive);
        }
    }
    assert_eq!(level_layout(1).len(), BRICK_ROWS * BRICK_COLS);
}
