use rust_webgpu_game::datauri::{base64_decode, decode_data_uri};

#[test]
fn decodes_full_groups() {
    assert_eq!(base64_decode("TWFu"), Some(b"Man".to_vec()));
    assert_eq!(base64_decode("aGVsbG8gd29ybGQh"), Some(b"hello world!".to_vec()));
    assert_eq!(base64_decode(""), Some(Vec::new()));
}

#[test]
fn decodes_padding() {
    assert_eq!(base64_decode("TWE="), Some(b"Ma".to_vec()));
    assert_eq!(base64_decode("TQ=="), Some(b"M".to_vec()));
    assert_eq!(base64_decode("aGk="), Some(b"hi".to_vec()));
}

#[test]
fn decodes_all_alphabet_values() {
    // "+/" map to 62 and 63: 0b111110_111111_000000 -> 0xFB 0xF0.
    assert_eq!(base64_decode("+/A="), Some(vec![0xfb, 0xf0]));
    assert_eq!(base64_decode("AAAA"), Some(vec![0, 0, 0]));
    assert_eq!(base64_decode("////"), Some(vec![0xff, 0xff, 0xff]));
    assert_eq!(base64_decode("za09"), Some(vec![0xcd, 0xad, 0x3d]));
}

#[test]
fn ignores_ascii_whitespace() {
    assert_eq!(base64_decode(" TW\tFu\r\n"), Some(b"Man".to_vec()));
    assert_eq!(base64_decode("T W\x0cF u"), Some(b"Man".to_vec()));
}

#[test]
fn rejects_bad_lengths_and_characters() {
    assert_eq!(base64_decode("TWF"), None);
    assert_eq!(base64_decode("TW-u"), None);
    assert_eq!(base64_decode("=WFu"), None);
    assert_eq!(base64_decode("T=Fu"), None);
    assert_eq!(base64_decode("TWé="), None);
    // vertical tab is not ASCII whitespace for the decoder
    assert_eq!(base64_decode("TWFu\x0b"), None);
}

#[test]
fn padding_counts_wherever_it_stands() {
    // A '=' in the third place with a character after it: two bytes come out.
    assert_eq!(base64_decode("TW=u").map(|v| v.len()), Some(2));
}

#[test]
fn data_uri_payload() {
    assert_eq!(decode_data_uri("data:text/plain;base64,TWFu"), Some(b"Man".to_vec()));
    assert_eq!(decode_data_uri("data:image/png;base64,  TWE=  "), Some(b"Ma".to_vec()));
    assert_eq!(decode_data_uri("data:text/plain,TWFu"), None);
    assert_eq!(decode_data_uri("base64,"), Some(Vec::new()));
    assert_eq!(decode_data_uri("x;base64,TQ==;base64,AAAA"), None);
    assert_eq!(decode_data_uri("x;base64,base64,"), None);
}

#[test]
fn data_uri_trims_unicode_whitespace() {
    assert_eq!(decode_data_uri("data:;base64,\u{a0}TWFu\u{3000}"), Some(b"Man".to_vec()));
    assert_eq!(decode_data_uri("data:;base64,\u{2003}\u{0b}TWFu\u{85}"), Some(b"Man".to_vec()));
    // inside the payload the same characters are errors
    assert_eq!(decode_data_uri("data:;base64,TW\u{a0}Fu"), None);
}

fn encode(bytes: &[u8]) -> String {
    const ALPHABET: &[u8; 64] = b"ABCDEFGHIJKLMNOPQRSTUVWXYZabcdefghijklmnopqrstuvwxyz0123456789+/";
    let mut out = String::new();
    for chunk in bytes.chunks(3) {
        let b = [chunk[0], *chunk.get(1).unwrap_or(&0), *chunk.get(2).unwrap_or(&0)];
        let n = (u32::from(b[0]) << 16) | (u32::from(b[1]) << 8) | u32::from(b[2]);
        for k in 0..4 {
            if k <= chunk.len() {
                out.push(ALPHABET[((n >> (18 - 6 * k)) & 63) as usize] as char);
            } else {
                out.push('=');
            }
        }
    }
    out
}

#[test]
fn decoding_undoes_encoding_with_whitespace_anywhere() {
    for len in 0..40usize {
        let bytes: Vec<u8> = (0..len).map(|i| (i * 97 + 31 * len) as u8).collect();
        let e = encode(&bytes);
        assert_eq!(base64_decode(&e), Some(bytes.clone()));
        let w: String = e
            .chars()
            .enumerate()
            .flat_map(|(i, c)| match i % 3 {
                0 => vec![' ', c],
                1 => vec![c, '\n', '\t'],
                _ => vec![c],
            })
            .collect();
        assert_eq!(base64_decode(&w), Some(bytes));
    }
    assert_eq!(base64_decode("TWFu"), Some(b"Man".to_vec()));
    assert_eq!(encode(b"Ma"), "TWE=");
}

#[test]
fn bad_lengths_and_bytes_decode_to_nothing() {
    assert_eq!(base64_decode("TWF"), None);
    assert_eq!(base64_decode("TW Fu\nQ"), None);
    assert_eq!(base64_decode("TW-u"), None);
    assert_eq!(base64_decode("TWFuTW.u"), None);
}
