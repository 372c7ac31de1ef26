//! What the Arkanoid HUD shows: the digits of the counters, the pixel cells
//! of each digit glyph, the combo badge and the hearts.
use vstd::prelude::*;

verus! {

/// 10^n.
pub open spec fn pow10(n: nat) -> nat
    decreases n,
{
    if n == 0 {
        1
    } else {
        10 * pow10((n - 1) as nat)
    }
}

/// The `i`-th decimal digit of `value`, counting from the least significant.
pub open spec fn digit_at(value: nat, i: nat) -> nat {
    (value / pow10(i)) % 10
}

/// The value that the first `n` digits of `d` spell, least significant first.
pub open spec fn digits_value(d: Seq<u8>, n: nat) -> nat
    decreases n,
{
    if n == 0 || n > d.len() {
        0
    } else {
        digits_value(d, (n - 1) as nat) + (d[n - 1] as nat) * pow10((n - 1) as nat)
    }
}

proof fn lemma_pow10_positive(n: nat)
    ensures
        pow10(n) >= 1,
    decreases n,
{
    if n > 0 {
        lemma_pow10_positive((n - 1) as nat);
    }
}

/// `value / 10^(i+1) == (value / 10^i) / 10`.
proof fn lemma_div_pow10_step(value: nat, i: nat)
    ensures
        value / pow10(i + 1) == (value / pow10(i)) / 10,
{
    lemma_pow10_positive(i);
    let p = pow10(i);
    assert(pow10(i + 1) == 10 * p);
    vstd::arithmetic::div_mod::lemma_div_denominator(value as int, p as int, 10);
    assert(value as int / (p as int * 10) == (value as int / p as int) / 10);
    assert(p * 10 == 10 * p) by (nonlinear_arith);
}

/// The `digits` least significant decimal digits of `value`, least significant first.
pub fn number_digits(value: u32, digits: u32) -> (d: Vec<u8>)
    ensures
        d@.len() == digits,
        forall|i: int| 0 <= i < digits ==> #[trigger] d@[i] == digit_at(value as nat, i as nat),
{
    let mut d: Vec<u8> = Vec::new();
    let mut v: u32 = value;
    let mut k: u32 = 0;
    assert(pow10(0) == 1);
    while k < digits
        invariant
            k <= digits,
            d@.len() == k,
            v == value as nat / pow10(k as nat),
            forall|i: int| 0 <= i < k ==> #[trigger] d@[i] == digit_at(value as nat, i as nat),
        decreases digits - k,
    {
        d.push((v % 10) as u8);
        proof {
            lemma_div_pow10_step(value as nat, k as nat);
        }
        v = v / 10;
        k = k + 1;
    }
    d
}

/// The digits of a number spell the number modulo 10^digits.
pub proof fn lemma_digits_spell_value(value: nat, d: Seq<u8>, n: nat)
    requires
        d.len() >= n,
        forall|i: int| 0 <= i < n ==> #[trigger] d[i] == digit_at(value, i as nat),
    ensures
        digits_value(d, n) == value % pow10(n),
    decreases n,
{
    if n > 0 {
        lemma_digits_spell_value(value, d, (n - 1) as nat);
        let m = (n - 1) as nat;
        lemma_pow10_positive(m);
        let p = pow10(m);
        // value % (10p) == value % p + ((value / p) % 10) * p
        vstd::arithmetic::div_mod::lemma_breakdown(value as int, p as int, 10);
        assert(pow10(n) == p * 10) by (nonlinear_arith)
            requires
                pow10(n) == 10 * p,
        ;
        assert(d[m as int] == (value / p) % 10);
        assert(digits_value(d, n) == value % p + ((value / p) % 10) * p);
        assert(((value / p) % 10) * p == p * ((value / p) % 10)) by (nonlinear_arith);
    }
}

/// The five-bit rows of the 5×7 glyph of digit `d` (digits above 9 show 9);
/// bit 4 is the leftmost column.
pub open spec fn glyph_row(d: u8, row: int) -> u8 {
    let rows: Seq<u8> = if d == 0 {
        seq![0b01110u8, 0b10001, 0b10011, 0b10101, 0b11001, 0b10001, 0b01110]
    } else if d == 1 {
        seq![0b00100u8, 0b01100, 0b00100, 0b00100, 0b00100, 0b00100, 0b01110]
    } else if d == 2 {
        seq![0b01110u8, 0b10001, 0b00001, 0b00110, 0b01000, 0b10000, 0b11111]
    } else if d == 3 {
        seq![0b01110u8, 0b10001, 0b00001, 0b00110, 0b00001, 0b10001, 0b01110]
    } else if d == 4 {
        seq![0b00010u8, 0b00110, 0b01010, 0b10010, 0b11111, 0b00010, 0b00010]
    } else if d == 5 {
        seq![0b11111u8, 0b10000, 0b11110, 0b00001, 0b00001, 0b10001, 0b01110]
    } else if d == 6 {
        seq![0b00110u8, 0b01000, 0b10000, 0b11110, 0b10001, 0b10001, 0b01110]
    } else if d == 7 {
        seq![0b11111u8, 0b00001, 0b00010, 0b00100, 0b01000, 0b01000, 0b01000]
    } else if d == 8 {
        seq![0b01110u8, 0b10001, 0b10001, 0b01110, 0b10001, 0b10001, 0b01110]
    } else {
        seq![0b01110u8, 0b10001, 0b10001, 0b01111, 0b00001, 0b00010, 0b01100]
    };
    rows[row]
}

/// Whether the glyph of `d` lights the cell at `row` (0..7) and `col` (0..5).
pub open spec fn glyph_lit(d: u8, row: int, col: int) -> bool {
    glyph_row(d, row) & (1u8 << (4 - col) as u8) != 0
}

/// The lit cells of the glyph of `d` among the first `n` cells in row-major order.
pub open spec fn glyph_cells_upto(d: u8, n: nat) -> Seq<(u8, u8)>
    decreases n,
{
    if n == 0 {
        Seq::empty()
    } else {
        let prev = glyph_cells_upto(d, (n - 1) as nat);
        let row = (n - 1) / 5;
        let col = (n - 1) % 5;
        if glyph_lit(d, row, col) {
            prev.push((row as u8, col as u8))
        } else {
            prev
        }
    }
}

fn glyph_row_of(d: u8, row: usize) -> (bits: u8)
    requires
        row < 7,
    ensures
        bits == glyph_row(d, row as int),
{
    let rows: [u8; 7] = if d == 0 {
        [0b01110u8, 0b10001, 0b10011, 0b10101, 0b11001, 0b10001, 0b01110]
    } else if d == 1 {
        [0b00100u8, 0b01100, 0b00100, 0b00100, 0b00100, 0b00100, 0b01110]
    } else if d == 2 {
        [0b01110u8, 0b10001, 0b00001, 0b00110, 0b01000, 0b10000, 0b11111]
    } else if d == 3 {
        [0b01110u8, 0b10001, 0b00001, 0b00110, 0b00001, 0b10001, 0b01110]
    } else if d == 4 {
        [0b00010u8, 0b00110, 0b01010, 0b10010, 0b11111, 0b00010, 0b00010]
    } else if d == 5 {
        [0b11111u8, 0b10000, 0b11110, 0b00001, 0b00001, 0b10001, 0b01110]
    } else if d == 6 {
        [0b00110u8, 0b01000, 0b10000, 0b11110, 0b10001, 0b10001, 0b01110]
    } else if d == 7 {
        [0b11111u8, 0b00001, 0b00010, 0b00100, 0b01000, 0b01000, 0b01000]
    } else if d == 8 {
        [0b01110u8, 0b10001, 0b10001, 0b01110, 0b10001, 0b10001, 0b01110]
    } else {
        [0b01110u8, 0b10001, 0b10001, 0b01111, 0b00001, 0b00010, 0b01100]
    };
    let bits = rows[row];
    proof {
        assert(rows@ =~= if d == 0 {
            seq![0b01110u8, 0b10001, 0b10011, 0b10101, 0b11001, 0b10001, 0b01110]
        } else if d == 1 {
            seq![0b00100u8, 0b01100, 0b00100, 0b00100, 0b00100, 0b00100, 0b01110]
        } else if d == 2 {
            seq![0b01110u8, 0b10001, 0b00001, 0b00110, 0b01000, 0b10000, 0b11111]
        } else if d == 3 {
            seq![0b01110u8, 0b10001, 0b00001, 0b00110, 0b00001, 0b10001, 0b01110]
        } else if d == 4 {
            seq![0b00010u8, 0b00110, 0b01010, 0b10010, 0b11111, 0b00010, 0b00010]
        } else if d == 5 {
            seq![0b11111u8, 0b10000, 0b11110, 0b00001, 0b00001, 0b10001, 0b01110]
        } else if d == 6 {
            seq![0b00110u8, 0b01000, 0b10000, 0b11110, 0b10001, 0b10001, 0b01110]
        } else if d == 7 {
            seq![0b11111u8, 0b00001, 0b00010, 0b00100, 0b01000, 0b01000, 0b01000]
        } else if d == 8 {
            seq![0b01110u8, 0b10001, 0b10001, 0b01110, 0b10001, 0b10001, 0b01110]
        } else {
            seq![0b01110u8, 0b10001, 0b10001, 0b01111, 0b00001, 0b00010, 0b01100]
        });
    }
    bits
}

/// The lit cells (row, column) of the 5×7 glyph of digit `d`, row by row;
/// digits above 9 show the glyph of 9.
pub fn glyph_cells(d: u8) -> (cells: Vec<(u8, u8)>)
    ensures
        cells@ == glyph_cells_upto(if d > 9 {
            9u8
        } else {
            d
        }, 35),
{
    let g: u8 = if d > 9 {
        9
    } else {
        d
    };
    let mut cells: Vec<(u8, u8)> = Vec::new();
    let mut k: usize = 0;
    while k < 35
        invariant
            k <= 35,
            cells@ == glyph_cells_upto(g, k as nat),
        decreases 35 - k,
    {
        let row: usize = k / 5;
        let col: usize = k % 5;
        let bits = glyph_row_of(g, row);
        let shift: u8 = (4 - col) as u8;
        if bits & (1u8 << shift) != 0 {
            cells.push((row as u8, col as u8));
        }
        k = k + 1;
    }
    cells
}

/// The counters the HUD draws.
#[derive(Clone, Debug)]
pub struct HudCounters {
    /// Six score digits, least significant first.
    pub score_digits: Vec<u8>,
    /// The level digit (levels above 9 show 9).
    pub level_digit: u8,
    /// The combo badge digit, shown only for a combo above one.
    pub combo_digit: Option<u8>,
    /// Hearts drawn for the lives (none in practice mode, at most eight).
    pub hearts: u32,
    /// Three frame-rate digits, least significant first.
    pub fps_digits: Vec<u8>,
}

/// The discrete content of the HUD; `fps` is the rounded frame rate, clamped to 0..=999.
pub fn hud_counters(score: u32, level: u32, combo: u32, lives: u32, immortal: bool, fps: u32) -> (h: HudCounters)
    ensures
        h.score_digits@.len() == 6,
        forall|i: int| 0 <= i < 6 ==> #[trigger] h.score_digits@[i] == digit_at(score as nat, i as nat),
        h.level_digit == if level > 9 {
            9
        } else {
            level
        },
        h.combo_digit == if combo > 1 {
            Some(
                if combo > 9 {
                    9u8
                } else {
                    combo as u8
                },
            )
        } else {
            None::<u8>
        },
        h.hearts == if immortal {
            0
        } else if lives > 8 {
            8
        } else {
            lives
        },
        h.fps_digits@.len() == 3,
        forall|i: int| 0 <= i < 3 ==> #[trigger] h.fps_digits@[i] == digit_at(fps as nat, i as nat),
{
    HudCounters {
        score_digits: number_digits(score, 6),
        level_digit: if level > 9 {
            9
        } else {
            level as u8
        },
        combo_digit: if combo > 1 {
            Some(
                if combo > 9 {
                    9
                } else {
                    combo as u8
                },
            )
        } else {
            None
        },
        hearts: if immortal {
            0
        } else if lives > 8 {
            8
        } else {
            lives
        },
        fps_digits: number_digits(fps, 3),
    }
}

} // verus!
