//! Albedo textures of glTF materials: locating the image bytes and decoding them.
use crate::datauri::{decode_data_uri, spec_decode_data_uri};
use image::GenericImageView;
use vstd::prelude::*;
use vstd::utf8::encode_utf8;

verus! {

/// A decoded image: 8-bit RGBA pixels, row by row.
#[derive(Clone, Debug)]
pub struct RgbaImage {
    pub width: u32,
    pub height: u32,
    pub pixels: Vec<u8>,
}

/// Where a glTF image keeps its encoded bytes.
#[derive(Clone, Debug)]
pub enum TextureSource {
    /// A buffer view: `length` bytes at `offset` of a buffer, which is the
    /// binary chunk of the GLB when `in_bin` holds.
    View { in_bin: bool, offset: usize, length: usize },
    /// A URI; only `data:` URIs with a base64 payload are read.
    Uri(String),
}

/// The width, height and RGBA8 pixels of the image that encoded `bytes` hold,
/// read with the built-in decoder of the format their leading magic bytes name
/// (`image::guess_format`, then `image::load_from_memory_with_format` and
/// `to_rgba8`), or `None` when the format is unknown or decoding fails.
pub uninterp spec fn decoded_rgba8(bytes: Seq<u8>) -> Option<(u32, u32, Seq<u8>)>;

/// Guesses the format of `bytes` from the `image` crate's own table of magic
/// bytes (`image::guess_format`), decodes them with that format's built-in
/// decoder (`image::load_from_memory_with_format`), and converts the image
/// with `dimensions`, `to_rgba8` and `into_raw`. Neither call consults the
/// crate's registrable hooks, so the result is `decoded_rgba8(bytes)`: `Some`
/// exactly when the format is known and decoding succeeds.
#[verifier::external_body]
fn load_rgba8(bytes: &[u8]) -> (res: Option<RgbaImage>)
    ensures
        res is Some == decoded_rgba8(bytes@) is Some,
        res matches Some(img) ==> decoded_rgba8(bytes@) == Some(
            (img.width, img.height, img.pixels@),
        ),
{
    let format = image::guess_format(bytes).ok()?;
    let img = image::load_from_memory_with_format(bytes, format).ok()?;
    let (width, height) = img.dimensions();
    Some(RgbaImage { width, height, pixels: img.to_rgba8().into_raw() })
}

/// The encoded bytes of a texture: a range of the GLB binary chunk, or the
/// payload of a `data:` URI; `None` when they cannot be had.
pub open spec fn spec_texture_bytes(source: TextureSource, blob: Seq<u8>) -> Option<Seq<u8>> {
    match source {
        TextureSource::View { in_bin, offset, length } => {
            if !in_bin || offset + length > usize::MAX || offset + length > blob.len() {
                None
            } else {
                Some(blob.subrange(offset as int, offset + length))
            }
        },
        TextureSource::Uri(uri) => spec_decode_data_uri(encode_utf8(uri@)),
    }
}

/// The encoded bytes of a texture (see `spec_texture_bytes`).
pub fn texture_bytes(source: &TextureSource, blob: &[u8]) -> (res: Option<Vec<u8>>)
    ensures
        res is Some == spec_texture_bytes(*source, blob@) is Some,
        res is Some ==> res.unwrap()@ == spec_texture_bytes(*source, blob@).unwrap(),
{
    match source {
        TextureSource::View { in_bin, offset, length } => {
            if !*in_bin {
                return None;
            }
            let end = match offset.checked_add(*length) {
                Some(e) => e,
                None => {
                    return None;
                },
            };
            if end > blob.len() {
                return None;
            }
            let mut out: Vec<u8> = Vec::new();
            let mut i: usize = *offset;
            while i < end
                invariant
                    *offset <= i <= end <= blob@.len(),
                    out@ == blob@.subrange(*offset as int, i as int),
                decreases end - i,
            {
                out.push(blob[i]);
                proof {
                    assert(out@ =~= blob@.subrange(*offset as int, i + 1));
                }
                i = i + 1;
            }
            Some(out)
        },
        TextureSource::Uri(uri) => decode_data_uri(uri.as_str()),
    }
}

/// Decodes the albedo texture of a material; `None` when its bytes cannot be
/// had or are not an image.
pub fn decode_texture(source: &TextureSource, blob: &[u8]) -> (res: Option<RgbaImage>)
    ensures
        match spec_texture_bytes(*source, blob@) {
            None => res is None,
            Some(bytes) => {
                &&& res is Some == decoded_rgba8(bytes) is Some
                &&& res matches Some(img) ==> decoded_rgba8(bytes) == Some(
                    (img.width, img.height, img.pixels@),
                )
            },
        },
{
    let bytes = texture_bytes(source, blob)?;
    load_rgba8(bytes.as_slice())
}

} // verus!
