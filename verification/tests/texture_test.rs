use rust_webgpu_game::texture::{decode_texture, texture_bytes, TextureSource};

fn png_2x1() -> Vec<u8> {
    let img = image::RgbaImage::from_raw(2, 1, vec![255, 0, 0, 255, 0, 0, 255, 128]).unwrap();
    let mut out = std::io::Cursor::new(Vec::new());
    image::DynamicImage::ImageRgba8(img)
        .write_to(&mut out, image::ImageFormat::Png)
        .unwrap();
    out.into_inner()
}

fn base64(bytes: &[u8]) -> String {
    const A: &[u8] = b"ABCDEFGHIJKLMNOPQRSTUVWXYZabcdefghijklmnopqrstuvwxyz0123456789+/";
    let mut s = String::new();
    for chunk in bytes.chunks(3) {
        let b = [chunk[0], *chunk.get(1).unwrap_or(&0), *chunk.get(2).unwrap_or(&0)];
        let n = (u32::from(b[0]) << 16) | (u32::from(b[1]) << 8) | u32::from(b[2]);
        s.push(A[(n >> 18) as usize & 63] as char);
        s.push(A[(n >> 12) as usize & 63] as char);
        s.push(if chunk.len() > 1 { A[(n >> 6) as usize & 63] as char } else { '=' });
        s.push(if chunk.len() > 2 { A[n as usize & 63] as char } else { '=' });
    }
    s
}

#[test]
fn decodes_an_embedded_png_view() {
    let png = png_2x1();
    let mut blob = vec![7u8, 7, 7];
    blob.extend_from_slice(&png);
    blob.push(9);
    let src = TextureSource::View { in_bin: true, offset: 3, length: png.len() };
    let img = decode_texture(&src, &blob).expect("decodes");
    assert_eq!((img.width, img.height), (2, 1));
    assert_eq!(img.pixels, vec![255, 0, 0, 255, 0, 0, 255, 128]);
}

#[test]
fn decodes_a_data_uri_png() {
    let uri = format!("data:image/png;base64,{}", base64(&png_2x1()));
    let img = decode_texture(&TextureSource::Uri(uri), &[]).expect("decodes");
    assert_eq!(img.pixels.len(), 8);
    assert_eq!(img.pixels[4..8], [0, 0, 255, 128]);
}

#[test]
fn rejects_views_that_cannot_be_read() {
    let blob = png_2x1();
    let outside = TextureSource::View { in_bin: false, offset: 0, length: blob.len() };
    assert!(texture_bytes(&outside, &blob).is_none());
    let too_long = TextureSource::View { in_bin: true, offset: 1, length: blob.len() };
    assert!(texture_bytes(&too_long, &blob).is_none());
    let overflow = TextureSource::View { in_bin: true, offset: usize::MAX, length: 2 };
    assert!(texture_bytes(&overflow, &blob).is_none());
    let external = TextureSource::Uri("textures/albedo.png".to_string());
    assert!(decode_texture(&external, &blob).is_none());
}

#[test]
fn view_bytes_are_the_range() {
    let blob = vec![1u8, 2, 3, 4, 5];
    let src = TextureSource::View { in_bin: true, offset: 1, length: 3 };
    assert_eq!(texture_bytes(&src, &blob), Some(vec![2, 3, 4]));
    let empty = TextureSource::View { in_bin: true, offset: 5, length: 0 };
    assert_eq!(texture_bytes(&empty, &blob), Some(vec![]));
}

#[test]
fn garbage_is_not_an_image() {
    let blob = vec![1u8, 2, 3, 4, 5, 6, 7, 8];
    let src = TextureSource::View { in_bin: true, offset: 0, length: 8 };
    assert!(decode_texture(&src, &blob).is_none());
}
