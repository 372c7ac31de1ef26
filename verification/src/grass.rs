//! The procedural grass texture of the tank battlefield.
//!
//! Each texel takes a hashed brightness `n = k / 2^24` and mixes a grass or a
//! dirt colour from it. The colour formulas `255 * (a + n * b)` are evaluated
//! exactly over the `f32` values of their decimal constants: with `A = a * 2^53`
//! and `B = b * 2^29` a channel is `floor(255 * (A + B * k) / 2^53)`.
use crate::texture::RgbaImage;
use vstd::prelude::*;
use vstd::wrapping::u32_specs::{wrapping_add, wrapping_mul};

verus! {

/// Side of the square texture, in texels.
pub const GRASS_SIZE: u32 = 256;

/// The 24-bit integer hash of a texel position (the brightness numerator over 2^24).
pub open spec fn spec_hash(x: u32, y: u32) -> u32 {
    let n = wrapping_add(wrapping_mul(x, 374761393), wrapping_mul(y, 668265263));
    let m = wrapping_mul(n ^ (n >> 13u32), 1274126177);
    m / 256
}

/// The hash of a texel position: a brightness numerator below 2^24.
pub fn hash(x: u32, y: u32) -> (k: u32)
    ensures
        k == spec_hash(x, y),
        k < 16777216,
{
    let n = x.wrapping_mul(374761393).wrapping_add(y.wrapping_mul(668265263));
    let m = (n ^ (n >> 13u32)).wrapping_mul(1274126177);
    m / 256
}

/// The texel is dirt when the second hash exceeds 0.82 (as `f32`, 13757317 / 2^24).
pub open spec fn is_dirt(x: u32, y: u32) -> bool {
    spec_hash(wrapping_mul(x, 19), wrapping_mul(y, 7)) > 13757317
}

/// `(A, B)` of colour channel `c` (0 red, 1 green, 2 blue) of dirt or grass.
pub open spec fn channel_coeffs(dirt: bool, c: int) -> (u64, u64) {
    if dirt {
        if c == 0 {
            (3422735673851904u64, 42949672u64)
        } else if c == 1 {
            (2522015802064896u64, 26843546u64)
        } else {
            (1261007901032448u64, 16106127u64)
        }
    } else {
        if c == 0 {
            (1801439877791744u64, 53687092u64)
        } else if c == 1 {
            (3062447778824192u64, 75161928u64)
        } else {
            (1080863886409728u64, 26843546u64)
        }
    }
}

/// One colour byte: `floor(255 * (A + B * k) / 2^53)`.
pub open spec fn channel_value(dirt: bool, c: int, k: u32) -> int {
    let (a, b) = channel_coeffs(dirt, c);
    (255 * (a + b * k)) / 9007199254740992
}

/// Byte `j` of the texture: texel `j / 4` in row-major order, channel `j % 4`
/// (the fourth channel is opaque alpha).
pub open spec fn grass_byte(j: int) -> u8 {
    let p = j / 4;
    let c = j % 4;
    let x = (p % 256) as u32;
    let y = (p / 256) as u32;
    if c == 3 {
        255
    } else {
        channel_value(is_dirt(x, y), c, spec_hash(x, y)) as u8
    }
}

fn channel(dirt: bool, c: usize, k: u32) -> (v: u8)
    requires
        c < 3,
        k < 16777216,
    ensures
        v == channel_value(dirt, c as int, k),
{
    let (a, b): (u64, u64) = if dirt {
        if c == 0 {
            (3422735673851904u64, 42949672u64)
        } else if c == 1 {
            (2522015802064896u64, 26843546u64)
        } else {
            (1261007901032448u64, 16106127u64)
        }
    } else {
        if c == 0 {
            (1801439877791744u64, 53687092u64)
        } else if c == 1 {
            (3062447778824192u64, 75161928u64)
        } else {
            (1080863886409728u64, 26843546u64)
        }
    };
    let kk: u64 = k as u64;
    assert(b * kk <= 75161928 * 16777215) by (nonlinear_arith)
        requires
            b <= 75161928,
            kk <= 16777215,
    ;
    let s: u64 = a + b * kk;
    assert(255 * s < 256 * 9007199254740992) by (nonlinear_arith)
        requires
            s <= 3422735673851904 + 75161928 * 16777215,
    ;
    let v: u64 = (255 * s) / 9007199254740992;
    v as u8
}

/// The 256×256 RGBA grass texture.
pub fn grass_image() -> (img: RgbaImage)
    ensures
        img.width == GRASS_SIZE,
        img.height == GRASS_SIZE,
        img.pixels@.len() == 4 * 256 * 256,
        forall|j: int| 0 <= j < 4 * 256 * 256 ==> #[trigger] img.pixels@[j] == grass_byte(j),
{
    let mut pixels: Vec<u8> = Vec::new();
    let mut p: u32 = 0;
    while p < 65536
        invariant
            p <= 65536,
            pixels@.len() == 4 * p,
            forall|j: int| 0 <= j < 4 * p ==> #[trigger] pixels@[j] == grass_byte(j),
        decreases 65536 - p,
    {
        let x: u32 = p % 256;
        let y: u32 = p / 256;
        let n = hash(x, y);
        let n2 = hash(x.wrapping_mul(19), y.wrapping_mul(7));
        let dirt = n2 > 13757317;
        let r = channel(dirt, 0, n);
        let g = channel(dirt, 1, n);
        let b = channel(dirt, 2, n);
        pixels.push(r);
        pixels.push(g);
        pixels.push(b);
        pixels.push(255);
        proof {
            assert forall|j: int| 0 <= j < 4 * (p + 1) implies #[trigger] pixels@[j] == grass_byte(
                j,
            ) by {
                if j >= 4 * p {
                    assert(j / 4 == p as int);
                }
            }
        }
        p = p + 1;
    }
    RgbaImage { width: GRASS_SIZE, height: GRASS_SIZE, pixels }
}

} // verus!
