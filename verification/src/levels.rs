//! Brick patterns of the five levels.
//!
//! A cell holds 0 for "empty", 9 for an unbreakable (smoked glass) brick and
//! 1..=6 for the hit points of a breakable brick. The bottom rows are always
//! open to the ball: no level has a solid steel floor.
use vstd::prelude::*;

verus! {

/// Number of brick columns in the playfield grid.
pub const BRICK_COLS: usize = 32;

/// Number of brick rows in the playfield grid.
pub const BRICK_ROWS: usize = 22;

/// The last level; levels past it reuse its pattern.
pub const MAX_LEVEL: u32 = 5;

/// The value of a cell that holds an unbreakable brick.
pub const UNBREAKABLE: u8 = 9;

pub open spec fn abs_diff(a: int, b: int) -> int {
    if a >= b {
        a - b
    } else {
        b - a
    }
}

/// Distance of a cell from the centre of the level-2 diamond, scaled by 651000.
///
/// Normalising the column by `BRICK_COLS - 1` and the row by `BRICK_ROWS - 1`,
/// the diamond distance is `|nx - 0.5| + 0.7 * |ny - 0.32|`; multiplied by
/// 651000 it becomes this integer.
pub open spec fn diamond_distance(row: int, col: int) -> int {
    10500 * abs_diff(2 * col, 31) + 217 * abs_diff(100 * row, 672)
}

/// Level 1: three bands, three hit points at the top, one at the bottom
/// (the band is `ceil(3 * (1 - row / 21))`, kept within 1..=3).
pub open spec fn band_cell(row: int) -> u8 {
    if row < 7 {
        3
    } else if row < 14 {
        2
    } else {
        1
    }
}

/// Level 2: a diamond, hardest in its centre.
/// The thresholds are 0.52, 0.10 and 0.26 of the normalised distance.
pub open spec fn diamond_cell(row: int, col: int) -> u8 {
    let d = diamond_distance(row, col);
    if d > 338520 {
        0
    } else if d < 65100 {
        3
    } else if d < 169260 {
        2
    } else {
        1
    }
}

/// Level 3: a checkerboard of one and two hit points with two slotted steel pillars.
pub open spec fn pillars_cell(row: int, col: int) -> u8 {
    let pillar = (col == BRICK_COLS / 4 || col == (BRICK_COLS * 3) / 4) && row > 3 && row + 4
        < BRICK_ROWS && row % 4 != 0;
    if pillar {
        UNBREAKABLE
    } else if row + 1 == BRICK_ROWS {
        0
    } else if (row + col) % 2 == 0 {
        1
    } else {
        2
    }
}

/// Level 4: columns with gaps; the bottom stays open so the ball always reaches the field.
pub open spec fn columns_cell(row: int, col: int) -> u8 {
    let bottom = row + 3 >= BRICK_ROWS;
    let pillar = col == 8 || col == 23;
    let gap = row % 4 == 1;
    if bottom {
        if row + 1 == BRICK_ROWS {
            0
        } else {
            1
        }
    } else if pillar && !gap {
        UNBREAKABLE
    } else if row == 0 && (col < 2 || col + 2 >= BRICK_COLS) {
        UNBREAKABLE
    } else {
        (1 + row % 2) as u8
    }
}

/// Level 5 (and every level past it): side posts and a steel bar with an opening in the middle.
pub open spec fn fortress_cell(row: int, col: int) -> u8 {
    let bottom = row + 3 >= BRICK_ROWS;
    let side_post = (col == 0 || col + 1 == BRICK_COLS) && row < 7;
    let bar = row == 7 && (col < 9 || col + 9 >= BRICK_COLS);
    if bottom {
        1
    } else if side_post || bar {
        UNBREAKABLE
    } else if row == 0 {
        3
    } else {
        (1 + (row + col) % 3) as u8
    }
}

/// The cell of `level` at (`row`, `col`).
pub open spec fn spec_level_cell(level: u32, row: int, col: int) -> u8 {
    if level == 1 {
        band_cell(row)
    } else if level == 2 {
        diamond_cell(row, col)
    } else if level == 3 {
        pillars_cell(row, col)
    } else if level == 4 {
        columns_cell(row, col)
    } else {
        fortress_cell(row, col)
    }
}

/// The additions that the pattern of `level` makes on (`row`, `col`), in the
/// order it makes them, stay within `usize`. Levels 1 and 2 make none that can
/// overflow; on the grid every level fits.
pub open spec fn cell_index_fits(level: u32, row: usize, col: usize) -> bool {
    if level == 1 || level == 2 {
        true
    } else if level == 3 {
        let tested = (col == BRICK_COLS / 4 || col == (BRICK_COLS * 3) / 4) && row > 3;
        let pillar = tested && row + 4 < BRICK_ROWS && row % 4 != 0;
        &&& tested ==> row + 4 <= usize::MAX
        &&& !pillar ==> row + 1 <= usize::MAX
        &&& !pillar && row + 1 != BRICK_ROWS ==> row + col <= usize::MAX
    } else if level == 4 {
        &&& row + 3 <= usize::MAX
        &&& row == 0 && !(col == 8 || col == 23) && col >= 2 ==> col + 2 <= usize::MAX
    } else {
        let side_post = (col == 0 || col + 1 == BRICK_COLS) && row < 7;
        let bar = row == 7 && (col < 9 || col + 9 >= BRICK_COLS);
        &&& row + 3 <= usize::MAX
        &&& col != 0 ==> col + 1 <= usize::MAX
        &&& row == 7 && col >= 9 ==> col + 9 <= usize::MAX
        &&& row + 3 < BRICK_ROWS && !(side_post || bar) && row != 0 ==> row + col <= usize::MAX
    }
}

/// The pattern value of a cell: 0 empty, 9 unbreakable, otherwise hit points.
pub fn level_cell(level: u32, row: usize, col: usize) -> (cell: u8)
    requires
        cell_index_fits(level, row, col),
    ensures
        cell == spec_level_cell(level, row as int, col as int),
{
    match level {
        1 => {
            if row < 7 {
                3
            } else if row < 14 {
                2
            } else {
                1
            }
        },
        2 => {
            if row >= BRICK_ROWS || col >= BRICK_COLS {
                // Far outside the diamond.
                return 0;
            }
            let dc: u64 = if 2 * col >= 31 {
                (2 * col - 31) as u64
            } else {
                (31 - 2 * col) as u64
            };
            let dr: u64 = if 100 * row >= 672 {
                (100 * row - 672) as u64
            } else {
                (672 - 100 * row) as u64
            };
            let d: u64 = 10500 * dc + 217 * dr;
            if d > 338520 {
                0
            } else if d < 65100 {
                3
            } else if d < 169260 {
                2
            } else {
                1
            }
        },
        3 => {
            let pillar = (col == BRICK_COLS / 4 || col == (BRICK_COLS * 3) / 4) && row > 3 && row
                + 4 < BRICK_ROWS && row % 4 != 0;
            if pillar {
                UNBREAKABLE
            } else if row + 1 == BRICK_ROWS {
                0
            } else if (row + col) % 2 == 0 {
                1
            } else {
                2
            }
        },
        4 => {
            let bottom = row + 3 >= BRICK_ROWS;
            let pillar = col == 8 || col == 23;
            let gap = row % 4 == 1;
            if bottom {
                if row + 1 == BRICK_ROWS {
                    0
                } else {
                    1
                }
            } else if pillar && !gap {
                UNBREAKABLE
            } else if row == 0 && (col < 2 || col + 2 >= BRICK_COLS) {
                UNBREAKABLE
            } else {
                1 + (row % 2) as u8
            }
        },
        _ => {
            let bottom = row + 3 >= BRICK_ROWS;
            let side_post = (col == 0 || col + 1 == BRICK_COLS) && row < 7;
            let bar = row == 7 && (col < 9 || col + 9 >= BRICK_COLS);
            if bottom {
                1
            } else if side_post || bar {
                UNBREAKABLE
            } else if row == 0 {
                3
            } else {
                1 + ((row + col) % 3) as u8
            }
        },
    }
}


/// Every cell holds 0 (empty), 9 (unbreakable) or between one and three hit points.
pub proof fn lemma_cell_values(level: u32, row: int, col: int)
    requires
        row >= 0,
        col >= 0,
    ensures
        ({
            let c = spec_level_cell(level, row, col);
            c == 0 || c == UNBREAKABLE || (1 <= c <= 3)
        }),
{
}

/// The bottom three rows never hold unbreakable bricks: no level has a steel floor.
pub proof fn lemma_open_bottom(level: u32, row: int, col: int)
    requires
        0 <= col,
        row < BRICK_ROWS,
        row + 3 >= BRICK_ROWS,
    ensures
        spec_level_cell(level, row, col) != UNBREAKABLE,
{
}

/// The middle column is free of steel in every level, so there is always a
/// passage from the paddle up to the top of the field.
pub proof fn lemma_middle_passage(level: u32, row: int)
    requires
        0 <= row < BRICK_ROWS,
    ensures
        spec_level_cell(level, row, (BRICK_COLS / 2) as int) != UNBREAKABLE,
{
}

/// Levels 1, 2 and 4 are mirror images of themselves (column `c` matches
/// column `BRICK_COLS - 1 - c`), and in every level but 3 the steel is: the
/// fortress of level 5 has a side post on both edges and its bar on both sides.
pub proof fn lemma_level_mirror(level: u32, row: int, col: int)
    requires
        0 <= row,
        0 <= col < BRICK_COLS,
    ensures
        (level == 1 || level == 2 || level == 4) ==> spec_level_cell(level, row, col)
            == spec_level_cell(level, row, BRICK_COLS - 1 - col),
        level != 3 ==> (spec_level_cell(level, row, col) == UNBREAKABLE) == (spec_level_cell(
            level,
            row,
            BRICK_COLS - 1 - col,
        ) == UNBREAKABLE),
{
}

/// The steel of each level, cell by cell on the grid: two slotted pillars
/// (columns 8 and 24) in level 3; in level 4 two slotted columns (8 and 23)
/// and the two top corners; in level 5 and past it a post down each edge
/// over rows 0..7, and on row 7 a bar from each side leaving the middle
/// fourteen columns open. Levels 1 and 2 have none.
pub proof fn lemma_steel_cells(level: u32, row: int, col: int)
    requires
        0 <= row < BRICK_ROWS,
        0 <= col < BRICK_COLS,
    ensures
        (level == 1 || level == 2) ==> spec_level_cell(level, row, col) != UNBREAKABLE,
        level == 3 ==> ((spec_level_cell(level, row, col) == UNBREAKABLE) == ((col == 8 || col
            == 24) && 4 <= row <= 17 && row % 4 != 0)),
        level == 4 ==> ((spec_level_cell(level, row, col) == UNBREAKABLE) == (row < 19 && (((col
            == 8 || col == 23) && row % 4 != 1) || (row == 0 && (col <= 1 || col >= 30))))),
        (level == 0 || level >= 5) ==> ((spec_level_cell(level, row, col) == UNBREAKABLE) == (((
        col == 0 || col == 31) && row < 7) || (row == 7 && (col <= 8 || col >= 23)))),
        (level == 0 || level >= 5) && row < 7 ==> spec_level_cell(level, row, 0) == UNBREAKABLE
            && spec_level_cell(level, row, BRICK_COLS - 1) == UNBREAKABLE,
{
}

/// Every level holds at least one breakable brick inside the grid.
pub proof fn lemma_level_has_breakable(level: u32)
    ensures
        exists|row: int, col: int|
            0 <= row < BRICK_ROWS && 0 <= col < BRICK_COLS && #[trigger] spec_level_cell(
                level,
                row,
                col,
            ) != 0 && spec_level_cell(level, row, col) != UNBREAKABLE,
{
    assert(spec_level_cell(level, 20, 16) == 1);
}

/// One brick of a level layout: its grid cell and its hit points.
#[derive(Clone, Copy, Debug, PartialEq, Eq)]
pub struct BrickCell {
    pub row: usize,
    pub col: usize,
    pub hp: u8,
    pub max_hp: u8,
    pub alive: bool,
    pub unbreakable: bool,
}

/// The brick that a non-empty cell value describes; an unbreakable brick has one hit point.
pub open spec fn brick_of(row: usize, col: usize, cell: u8) -> BrickCell {
    let hp: u8 = if cell == UNBREAKABLE {
        1
    } else {
        cell
    };
    BrickCell { row, col, hp, max_hp: hp, alive: true, unbreakable: cell == UNBREAKABLE }
}

/// Number of cells in the grid.
pub open spec fn grid_len() -> nat {
    (BRICK_ROWS * BRICK_COLS) as nat
}

/// The bricks of the first `n` grid cells in row-major order, empty cells left out.
pub open spec fn layout_upto(level: u32, n: nat) -> Seq<BrickCell>
    decreases n,
{
    if n == 0 {
        Seq::empty()
    } else {
        let prev = layout_upto(level, (n - 1) as nat);
        let i = n - 1;
        let row = i / (BRICK_COLS as int);
        let col = i % (BRICK_COLS as int);
        let cell = spec_level_cell(level, row, col);
        if cell == 0 {
            prev
        } else {
            prev.push(brick_of(row as usize, col as usize, cell))
        }
    }
}

/// The bricks of a whole level, row by row, left to right.
pub open spec fn spec_level_layout(level: u32) -> Seq<BrickCell> {
    layout_upto(level, grid_len())
}

/// The bricks that a level starts with (the grid part of loading a level).
pub fn level_layout(level: u32) -> (bricks: Vec<BrickCell>)
    ensures
        bricks@ == spec_level_layout(level),
{
    let mut bricks: Vec<BrickCell> = Vec::new();
    let n: usize = BRICK_ROWS * BRICK_COLS;
    let mut k: usize = 0;
    while k < n
        invariant
            n == grid_len(),
            k <= n,
            bricks@ == layout_upto(level, k as nat),
        decreases n - k,
    {
        let row: usize = k / BRICK_COLS;
        let col: usize = k % BRICK_COLS;
        let cell = level_cell(level, row, col);
        if cell != 0 {
            let hp: u8 = if cell == UNBREAKABLE {
                1
            } else {
                cell
            };
            bricks.push(
                BrickCell { row, col, hp, max_hp: hp, alive: true, unbreakable: cell == UNBREAKABLE },
            );
        }
        k = k + 1;
    }
    bricks
}

} // verus!
