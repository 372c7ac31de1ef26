use rust_webgpu_game::grass::{grass_image, hash, GRASS_SIZE};

fn float_hash(x: u32, y: u32) -> f32 {
    let mut n = x.wrapping_mul(374761393).wrapping_add(y.wrapping_mul(668265263));
    n = (n ^ (n >> 13)).wrapping_mul(1274126177);
    (n >> 8) as f32 / 16_777_216.0
}

/// The grass texture computed with `f32` arithmetic.
fn float_grass() -> Vec<u8> {
    const W: u32 = 256;
    let mut pixels = vec![0u8; (W * W * 4) as usize];
    for y in 0..W {
        for x in 0..W {
            let n = float_hash(x, y);
            let n2 = float_hash(x.wrapping_mul(19), y.wrapping_mul(7));
            let dirt = n2 > 0.82;
            let (r, g, b) = if dirt {
                (0.38 + n * 0.08, 0.28 + n * 0.05, 0.14 + n * 0.03)
            } else {
                (0.20 + n * 0.10, 0.34 + n * 0.14, 0.12 + n * 0.05)
            };
            let i = ((y * W + x) * 4) as usize;
            pixels[i] = (r * 255.0) as u8;
            pixels[i + 1] = (g * 255.0) as u8;
            pixels[i + 2] = (b * 255.0) as u8;
            pixels[i + 3] = 255;
        }
    }
    pixels
}

#[test]
fn grass_matches_the_float_texture_everywhere() {
    let img = grass_image();
    assert_eq!(img.width, GRASS_SIZE);
    assert_eq!(img.height, GRASS_SIZE);
    let expected = float_grass();
    assert_eq!(img.pixels.len(), expected.len());
    for (i, (a, b)) in img.pixels.iter().zip(expected.iter()).enumerate() {
        assert_eq!(a, b, "byte {i}");
    }
}

#[test]
fn hash_is_the_float_numerator() {
    for (x, y) in [(0, 0), (1, 0), (0, 1), (255, 255), (171, 209), (4000, 7)] {
        let k = hash(x, y);
        assert!(k < 1 << 24);
        assert_eq!(k as f32 / 16_777_216.0, float_hash(x, y));
    }
    assert_eq!(hash(0, 0), 0);
}

#[test]
fn first_texel_is_plain_grass() {
    let img = grass_image();
    // hash(0, 0) == 0, so the first texel is 255 * (0.20, 0.34, 0.12).
    assert_eq!(&img.pixels[0..4], &[51, 86, 30, 255]);
}
