//! Base64 payloads of `data:` URIs, as embedded glTF images carry them.
use vstd::prelude::*;
use vstd::slice::slice_subrange;
use vstd::string::StringSliceAdditionalSpecFns;

verus! {

/// `u8::is_ascii_whitespace`: space, tab, line feed, form feed, carriage return.
pub open spec fn is_ascii_ws(b: u8) -> bool {
    b == 0x20 || b == 0x09 || b == 0x0a || b == 0x0c || b == 0x0d
}

/// The bytes of `s` with ASCII whitespace left out.
pub open spec fn strip_ws(s: Seq<u8>) -> Seq<u8>
    decreases s.len(),
{
    if s.len() == 0 {
        Seq::empty()
    } else {
        let rest = strip_ws(s.drop_last());
        if is_ascii_ws(s.last()) {
            rest
        } else {
            rest.push(s.last())
        }
    }
}

/// The padding byte `=`.
pub open spec fn is_pad(b: u8) -> bool {
    b == 0x3d
}

/// The six-bit value of a character of the standard base64 alphabet.
pub open spec fn sextet(c: u8) -> Option<u8> {
    if 0x41 <= c <= 0x5a {
        Some((c - 0x41) as u8)
    } else if 0x61 <= c <= 0x7a {
        Some((c - 0x61 + 26) as u8)
    } else if 0x30 <= c <= 0x39 {
        Some((c - 0x30 + 52) as u8)
    } else if c == 0x2b {
        Some(62u8)
    } else if c == 0x2f {
        Some(63u8)
    } else {
        None
    }
}

/// The value of the third or fourth character of a group: `=` counts as zero.
pub open spec fn tail_sextet(c: u8) -> Option<u8> {
    if is_pad(c) {
        Some(0u8)
    } else {
        sextet(c)
    }
}

/// Number of `=` among the four characters of a group (wherever they stand).
pub open spec fn pad_count(q: Seq<u8>) -> int {
    (if is_pad(q[0]) {
        1int
    } else {
        0
    }) + (if is_pad(q[1]) {
        1int
    } else {
        0
    }) + (if is_pad(q[2]) {
        1int
    } else {
        0
    }) + (if is_pad(q[3]) {
        1int
    } else {
        0
    })
}

/// The 24-bit number that four sextets spell.
pub open spec fn group_value(a: u8, b: u8, c: u8, d: u8) -> int {
    a * 262144 + b * 4096 + c * 64 + d
}

/// The bytes of one group of four characters: the high byte always, the middle
/// byte when fewer than two `=` occur, the low byte when none occurs.
pub open spec fn decode_group(q: Seq<u8>) -> Option<Seq<u8>> {
    match (sextet(q[0]), sextet(q[1]), tail_sextet(q[2]), tail_sextet(q[3])) {
        (Some(a), Some(b), Some(c), Some(d)) => {
            let n = group_value(a, b, c, d);
            let pad = pad_count(q);
            let hi = seq![(n / 65536) as u8];
            let mid = if pad < 2 {
                hi.push(((n / 256) % 256) as u8)
            } else {
                hi
            };
            Some(
                if pad < 1 {
                    mid.push((n % 256) as u8)
                } else {
                    mid
                },
            )
        },
        _ => None,
    }
}

/// The bytes of the first `k` groups of `s`, or `None` when one of them is malformed.
pub open spec fn decode_groups(s: Seq<u8>, k: nat) -> Option<Seq<u8>>
    decreases k,
{
    if k == 0 {
        Some(Seq::empty())
    } else {
        match decode_groups(s, (k - 1) as nat) {
            None => None,
            Some(prev) => match decode_group(s.subrange(4 * (k - 1), 4 * k as int)) {
                None => None,
                Some(g) => Some(prev + g),
            },
        }
    }
}

/// Base64 decoding as the glTF loader does it: whitespace is ignored, the rest
/// must come in groups of four, and `=` may pad the third and fourth place.
pub open spec fn spec_base64_decode(input: Seq<u8>) -> Option<Seq<u8>> {
    let b = strip_ws(input);
    if b.len() % 4 != 0 {
        None
    } else {
        decode_groups(b, b.len() / 4)
    }
}

/// Once a group fails, every longer prefix of groups fails too.
proof fn lemma_groups_fail_onward(s: Seq<u8>, k: nat, m: nat)
    requires
        k <= m,
        decode_groups(s, k) is None,
    ensures
        decode_groups(s, m) is None,
    decreases m - k,
{
    if k < m {
        lemma_groups_fail_onward(s, k, (m - 1) as nat);
    }
}

fn sextet_of(c: u8) -> (v: Option<u8>)
    ensures
        v == sextet(c),
{
    if 0x41 <= c && c <= 0x5a {
        Some(c - 0x41)
    } else if 0x61 <= c && c <= 0x7a {
        Some(c - 0x61 + 26)
    } else if 0x30 <= c && c <= 0x39 {
        Some(c - 0x30 + 52)
    } else if c == 0x2b {
        Some(62)
    } else if c == 0x2f {
        Some(63)
    } else {
        None
    }
}

fn tail_sextet_of(c: u8) -> (v: Option<u8>)
    ensures
        v == tail_sextet(c),
{
    if c == 0x3d {
        Some(0)
    } else {
        sextet_of(c)
    }
}

/// Decodes the base64 text `bytes[start..end]`.
fn decode_range(bytes: &[u8], start: usize, end: usize) -> (res: Option<Vec<u8>>)
    requires
        start <= end <= bytes@.len(),
    ensures
        res is Some == spec_base64_decode(bytes@.subrange(start as int, end as int)) is Some,
        res is Some ==> res.unwrap()@ == spec_base64_decode(
            bytes@.subrange(start as int, end as int),
        ).unwrap(),
{
    let ghost input = bytes@.subrange(start as int, end as int);
    let mut kept: Vec<u8> = Vec::new();
    let mut i: usize = start;
    while i < end
        invariant
            start <= i <= end <= bytes@.len(),
            input == bytes@.subrange(start as int, end as int),
            kept@ == strip_ws(input.take(i - start)),
        decreases end - i,
    {
        let c = bytes[i];
        proof {
            assert(input.take(i + 1 - start).drop_last() =~= input.take(i - start));
        }
        if !(c == 0x20 || c == 0x09 || c == 0x0a || c == 0x0c || c == 0x0d) {
            kept.push(c);
        }
        i = i + 1;
    }
    proof {
        assert(input.take(end - start) =~= input);
    }
    if kept.len() % 4 != 0 {
        return None;
    }
    let groups: usize = kept.len() / 4;
    let mut out: Vec<u8> = Vec::new();
    let mut k: usize = 0;
    while k < groups
        invariant
            input == bytes@.subrange(start as int, end as int),
            kept@ == strip_ws(input),
            groups == kept@.len() / 4,
            kept@.len() % 4 == 0,
            k <= groups,
            decode_groups(kept@, k as nat) == Some(out@),
        decreases groups - k,
    {
        let q0 = kept[4 * k];
        let q1 = kept[4 * k + 1];
        let q2 = kept[4 * k + 2];
        let q3 = kept[4 * k + 3];
        let ghost q = kept@.subrange(4 * k as int, 4 * (k + 1) as int);
        assert(q[0] == q0 && q[1] == q1 && q[2] == q2 && q[3] == q3);
        let pad: usize = (if q0 == 0x3d {
            1usize
        } else {
            0
        }) + (if q1 == 0x3d {
            1usize
        } else {
            0
        }) + (if q2 == 0x3d {
            1usize
        } else {
            0
        }) + (if q3 == 0x3d {
            1usize
        } else {
            0
        });
        let a = sextet_of(q0);
        let b = sextet_of(q1);
        let c = tail_sextet_of(q2);
        let d = tail_sextet_of(q3);
        if a.is_none() || b.is_none() || c.is_none() || d.is_none() {
            proof {
                assert(decode_group(q) is None);
                assert(decode_groups(kept@, (k + 1) as nat) is None);
                lemma_groups_fail_onward(kept@, (k + 1) as nat, groups as nat);
            }
            return None;
        }
        let a = a.unwrap();
        let b = b.unwrap();
        let c = c.unwrap();
        let d = d.unwrap();
        let n: u32 = a as u32 * 262144 + b as u32 * 4096 + c as u32 * 64 + d as u32;
        let ghost before = out@;
        out.push((n / 65536) as u8);
        if pad < 2 {
            out.push(((n / 256) % 256) as u8);
        }
        if pad < 1 {
            out.push((n % 256) as u8);
        }
        proof {
            let g = decode_group(q).unwrap();
            assert(out@ =~= before + g);
        }
        k = k + 1;
    }
    Some(out)
}

/// Decodes standard base64 text; `None` when the text is malformed.
pub fn base64_decode(input: &str) -> (res: Option<Vec<u8>>)
    ensures
        res is Some == spec_base64_decode(input.spec_bytes()) is Some,
        res is Some ==> res.unwrap()@ == spec_base64_decode(input.spec_bytes()).unwrap(),
{
    let bytes = input.as_bytes();
    proof {
        assert(bytes@.subrange(0, bytes@.len() as int) =~= bytes@);
    }
    decode_range(bytes, 0, bytes.len())
}


/// The marker `base64,` starts at byte `i` of `b`.
pub open spec fn marker_at(b: Seq<u8>, i: int) -> bool {
    &&& 0 <= i
    &&& i + 7 <= b.len()
    &&& b[i] == 0x62 && b[i + 1] == 0x61 && b[i + 2] == 0x73 && b[i + 3] == 0x65
    &&& b[i + 4] == 0x36 && b[i + 5] == 0x34 && b[i + 6] == 0x2c
}

/// The first start of the marker `base64,` at or after byte `i`.
pub open spec fn find_marker_from(b: Seq<u8>, i: nat) -> Option<int>
    decreases b.len() - i,
{
    if i + 7 > b.len() {
        None
    } else if marker_at(b, i as int) {
        Some(i as int)
    } else {
        find_marker_from(b, i + 1)
    }
}

/// A three-byte UTF-8 sequence that encodes a Unicode `White_Space` character
/// (U+1680, U+2000..=U+200A, U+2028, U+2029, U+202F, U+205F, U+3000).
pub open spec fn is_ws3(a: u8, b: u8, c: u8) -> bool {
    ||| a == 0xe1 && b == 0x9a && c == 0x80
    ||| a == 0xe2 && b == 0x80 && (0x80 <= c <= 0x8a || c == 0xa8 || c == 0xa9 || c == 0xaf)
    ||| a == 0xe2 && b == 0x81 && c == 0x9f
    ||| a == 0xe3 && b == 0x80 && c == 0x80
}

/// A two-byte UTF-8 sequence that encodes U+0085 or U+00A0.
pub open spec fn is_ws2(a: u8, b: u8) -> bool {
    a == 0xc2 && (b == 0x85 || b == 0xa0)
}

/// A single byte that is a Unicode `White_Space` character (U+0009..=U+000D, U+0020).
pub open spec fn is_ws1(a: u8) -> bool {
    is_ascii_ws(a) || a == 0x0b
}

/// Length of the whitespace character that `s` starts with (0 when none).
pub open spec fn ws_prefix_len(s: Seq<u8>) -> int {
    if s.len() >= 1 && is_ws1(s[0]) {
        1
    } else if s.len() >= 2 && is_ws2(s[0], s[1]) {
        2
    } else if s.len() >= 3 && is_ws3(s[0], s[1], s[2]) {
        3
    } else {
        0
    }
}

/// Length of the whitespace character that `s` ends with (0 when none).
pub open spec fn ws_suffix_len(s: Seq<u8>) -> int {
    let n = s.len() as int;
    if n >= 1 && is_ws1(s[n - 1]) {
        1
    } else if n >= 2 && is_ws2(s[n - 2], s[n - 1]) {
        2
    } else if n >= 3 && is_ws3(s[n - 3], s[n - 2], s[n - 1]) {
        3
    } else {
        0
    }
}

/// `s` without its leading Unicode whitespace (UTF-8 encoded).
pub open spec fn trim_start_ws(s: Seq<u8>) -> Seq<u8>
    decreases s.len(),
{
    let k = ws_prefix_len(s);
    if k == 0 {
        s
    } else {
        trim_start_ws(s.skip(k))
    }
}

/// `s` without its trailing Unicode whitespace (UTF-8 encoded).
pub open spec fn trim_end_ws(s: Seq<u8>) -> Seq<u8>
    decreases s.len(),
{
    let k = ws_suffix_len(s);
    if k == 0 {
        s
    } else {
        trim_end_ws(s.take(s.len() - k))
    }
}

/// `str::trim` on the UTF-8 bytes of a string.
pub open spec fn trim_ws(s: Seq<u8>) -> Seq<u8> {
    trim_end_ws(trim_start_ws(s))
}

/// The payload of a `data:` URI: the base64 text after the first `base64,`, trimmed.
pub open spec fn spec_decode_data_uri(uri: Seq<u8>) -> Option<Seq<u8>> {
    match find_marker_from(uri, 0) {
        None => None,
        Some(i) => spec_base64_decode(trim_ws(uri.subrange(i + 7, uri.len() as int))),
    }
}

fn ws_prefix_len_at(b: &[u8], lo: usize, hi: usize) -> (k: usize)
    requires
        lo <= hi <= b@.len(),
    ensures
        k == ws_prefix_len(b@.subrange(lo as int, hi as int)),
{
    let ghost s = b@.subrange(lo as int, hi as int);
    let n: usize = hi - lo;
    if n >= 1 {
        let a = b[lo];
        if a == 0x20 || a == 0x09 || a == 0x0a || a == 0x0c || a == 0x0d || a == 0x0b {
            return 1;
        }
    }
    if n >= 2 {
        let a = b[lo];
        let c = b[lo + 1];
        if a == 0xc2 && (c == 0x85 || c == 0xa0) {
            return 2;
        }
    }
    if n >= 3 {
        let a = b[lo];
        let c = b[lo + 1];
        let d = b[lo + 2];
        if (a == 0xe1 && c == 0x9a && d == 0x80) || (a == 0xe2 && c == 0x80 && ((0x80 <= d && d
            <= 0x8a) || d == 0xa8 || d == 0xa9 || d == 0xaf)) || (a == 0xe2 && c == 0x81 && d
            == 0x9f) || (a == 0xe3 && c == 0x80 && d == 0x80) {
            return 3;
        }
    }
    0
}

fn ws_suffix_len_at(b: &[u8], lo: usize, hi: usize) -> (k: usize)
    requires
        lo <= hi <= b@.len(),
    ensures
        k == ws_suffix_len(b@.subrange(lo as int, hi as int)),
{
    let n: usize = hi - lo;
    if n >= 1 {
        let a = b[hi - 1];
        if a == 0x20 || a == 0x09 || a == 0x0a || a == 0x0c || a == 0x0d || a == 0x0b {
            return 1;
        }
    }
    if n >= 2 {
        let a = b[hi - 2];
        let c = b[hi - 1];
        if a == 0xc2 && (c == 0x85 || c == 0xa0) {
            return 2;
        }
    }
    if n >= 3 {
        let a = b[hi - 3];
        let c = b[hi - 2];
        let d = b[hi - 1];
        if (a == 0xe1 && c == 0x9a && d == 0x80) || (a == 0xe2 && c == 0x80 && ((0x80 <= d && d
            <= 0x8a) || d == 0xa8 || d == 0xa9 || d == 0xaf)) || (a == 0xe2 && c == 0x81 && d
            == 0x9f) || (a == 0xe3 && c == 0x80 && d == 0x80) {
            return 3;
        }
    }
    0
}

/// Decodes the base64 payload of a `data:` URI; `None` when there is no
/// `base64,` marker or the payload is malformed.
pub fn decode_data_uri(uri: &str) -> (res: Option<Vec<u8>>)
    ensures
        res is Some == spec_decode_data_uri(uri.spec_bytes()) is Some,
        res is Some ==> res.unwrap()@ == spec_decode_data_uri(uri.spec_bytes()).unwrap(),
{
    let b = uri.as_bytes();
    let n: usize = b.len();
    let mut i: usize = 0;
    let mut found = false;
    while i < n && n - i >= 7
        invariant_except_break
            !found,
        invariant
            n == b@.len(),
            i <= n,
            find_marker_from(b@, 0) == find_marker_from(b@, i as nat),
        ensures
            find_marker_from(b@, 0) == find_marker_from(b@, i as nat),
            found ==> marker_at(b@, i as int),
            !found ==> i + 7 > n,
        decreases n - i,
    {
        if b[i] == 0x62 && b[i + 1] == 0x61 && b[i + 2] == 0x73 && b[i + 3] == 0x65 && b[i + 4]
            == 0x36 && b[i + 5] == 0x34 && b[i + 6] == 0x2c {
            found = true;
            break;
        }
        i = i + 1;
    }
    if !found {
        return None;
    }
    assert(find_marker_from(b@, 0) == Some(i as int));
    let ghost rest = b@.subrange(i + 7, n as int);
    let mut lo: usize = i + 7;
    let mut hi: usize = n;
    while lo < hi
        invariant
            i + 7 <= lo <= hi == n == b@.len(),
            rest == b@.subrange(i + 7, n as int),
            trim_start_ws(rest) == trim_start_ws(b@.subrange(lo as int, hi as int)),
        ensures
            ws_prefix_len(b@.subrange(lo as int, hi as int)) == 0,
        decreases hi - lo,
    {
        let k = ws_prefix_len_at(b, lo, hi);
        if k == 0 {
            break;
        }
        proof {
            assert(b@.subrange(lo as int, hi as int).skip(k as int) =~= b@.subrange(
                lo + k,
                hi as int,
            ));
        }
        lo = lo + k;
    }
    assert(trim_start_ws(rest) == b@.subrange(lo as int, hi as int));
    let ghost start_trimmed = b@.subrange(lo as int, hi as int);
    while lo < hi
        invariant
            i + 7 <= lo <= hi <= n == b@.len(),
            trim_end_ws(start_trimmed) == trim_end_ws(b@.subrange(lo as int, hi as int)),
        ensures
            ws_suffix_len(b@.subrange(lo as int, hi as int)) == 0,
        decreases hi - lo,
    {
        let k = ws_suffix_len_at(b, lo, hi);
        if k == 0 {
            break;
        }
        proof {
            let s = b@.subrange(lo as int, hi as int);
            assert(s.take(s.len() - k) =~= b@.subrange(lo as int, hi - k));
        }
        hi = hi - k;
    }
    assert(trim_ws(rest) == b@.subrange(lo as int, hi as int));
    decode_range(b, lo, hi)
}

/// Leaving out whitespace twice changes nothing.
proof fn lemma_strip_ws_idempotent(s: Seq<u8>)
    ensures
        strip_ws(strip_ws(s)) == strip_ws(s),
    decreases s.len(),
{
    if s.len() > 0 {
        lemma_strip_ws_idempotent(s.drop_last());
        let r = strip_ws(s.drop_last());
        if !is_ascii_ws(s.last()) {
            assert(r.push(s.last()).drop_last() =~= r);
        }
    }
}

/// Whitespace anywhere in base64 text does not change what it decodes to.
pub proof fn lemma_decode_ignores_whitespace(s: Seq<u8>)
    ensures
        spec_base64_decode(strip_ws(s)) == spec_base64_decode(s),
{
    lemma_strip_ws_idempotent(s);
}

/// The character of the standard base64 alphabet for a six-bit value.
pub open spec fn base64_char(v: u8) -> u8 {
    if v < 26 {
        (0x41 + v) as u8
    } else if v < 52 {
        (0x61 + v - 26) as u8
    } else if v < 62 {
        (0x30 + v - 52) as u8
    } else if v == 62 {
        0x2b
    } else {
        0x2f
    }
}

/// The four characters that encode the bytes `x`, `y`, `z`.
pub open spec fn encode_triple(x: u8, y: u8, z: u8) -> Seq<u8> {
    seq![
        base64_char(x / 4),
        base64_char(((x % 4) * 16 + y / 16) as u8),
        base64_char(((y % 16) * 4 + z / 64) as u8),
        base64_char(z % 64),
    ]
}

/// The characters of the first `k` whole three-byte groups of `b`.
pub open spec fn encode_triples(b: Seq<u8>, k: nat) -> Seq<u8>
    decreases k,
{
    if k == 0 {
        Seq::empty()
    } else {
        let i = 3 * (k - 1);
        encode_triples(b, (k - 1) as nat) + encode_triple(b[i], b[i + 1], b[i + 2])
    }
}

/// Standard padded base64 (RFC 4648, alphabet `A-Z a-z 0-9 + /`): three bytes
/// become four characters, and a last group of one or two bytes is padded
/// with `==` or `=`.
pub open spec fn spec_base64_encode(b: Seq<u8>) -> Seq<u8> {
    let k = (b.len() / 3) as int;
    let head = encode_triples(b, k as nat);
    if b.len() % 3 == 0 {
        head
    } else if b.len() % 3 == 1 {
        let x = b[3 * k];
        head + seq![base64_char(x / 4), base64_char(((x % 4) * 16) as u8), 0x3du8, 0x3du8]
    } else {
        let x = b[3 * k];
        let y = b[3 * k + 1];
        head + seq![
            base64_char(x / 4),
            base64_char(((x % 4) * 16 + y / 16) as u8),
            base64_char(((y % 16) * 4) as u8),
            0x3du8,
        ]
    }
}

proof fn lemma_base64_char(v: u8)
    requires
        v < 64,
    ensures
        sextet(base64_char(v)) == Some(v),
        !is_pad(base64_char(v)),
        !is_ascii_ws(base64_char(v)),
{
}

/// The 24-bit number of a full group is the three bytes, high byte first.
proof fn lemma_triple_value(x: u8, y: u8, z: u8)
    ensures
        group_value(x / 4, ((x % 4) * 16 + y / 16) as u8, ((y % 16) * 4 + z / 64) as u8, z % 64)
            == x * 65536 + y * 256 + z,
{
    assert((x / 4) as u32 * 262144 + (((x % 4) * 16 + y / 16) as u8) as u32 * 4096 + (((y % 16)
        * 4 + z / 64) as u8) as u32 * 64 + (z % 64) as u32 == x as u32 * 65536 + y as u32 * 256
        + z as u32) by (bit_vector);
}

/// The bytes of a 24-bit number, high byte first.
proof fn lemma_split_value(x: u8, y: u8, z: u8)
    ensures
        (x * 65536 + y * 256 + z) / 65536 == x,
        ((x * 65536 + y * 256 + z) / 256) % 256 == y,
        (x * 65536 + y * 256 + z) % 256 == z,
{
    assert((x as u32 * 65536 + y as u32 * 256 + z as u32) / 65536 == x as u32) by (bit_vector);
    assert(((x as u32 * 65536 + y as u32 * 256 + z as u32) / 256) % 256 == y as u32) by (bit_vector);
    assert((x as u32 * 65536 + y as u32 * 256 + z as u32) % 256 == z as u32) by (bit_vector);
}

/// A full group decodes back to its three bytes.
proof fn lemma_triple_round_trip(x: u8, y: u8, z: u8)
    ensures
        decode_group(encode_triple(x, y, z)) == Some(seq![x, y, z]),
{
    let a = x / 4;
    let b = ((x % 4) * 16 + y / 16) as u8;
    let c = ((y % 16) * 4 + z / 64) as u8;
    let d = z % 64;
    assert((x % 4) * 16 + y / 16 < 64 && (y % 16) * 4 + z / 64 < 64) by (bit_vector);
    lemma_base64_char(a);
    lemma_base64_char(b);
    lemma_base64_char(c);
    lemma_base64_char(d);
    let q = encode_triple(x, y, z);
    assert(q[0] == base64_char(a) && q[1] == base64_char(b) && q[2] == base64_char(c) && q[3]
        == base64_char(d));
    assert(pad_count(q) == 0);
    lemma_triple_value(x, y, z);
    lemma_split_value(x, y, z);
    assert(decode_group(q).unwrap() =~= seq![x, y, z]);
}

/// A last group of one byte, padded with `==`, decodes back to it.
proof fn lemma_single_round_trip(x: u8)
    ensures
        decode_group(seq![base64_char(x / 4), base64_char(((x % 4) * 16) as u8), 0x3du8, 0x3du8])
            == Some(seq![x]),
{
    let a = x / 4;
    let b = ((x % 4) * 16) as u8;
    assert((x % 4) * 16 < 64) by (bit_vector);
    lemma_base64_char(a);
    lemma_base64_char(b);
    let q = seq![base64_char(a), base64_char(b), 0x3du8, 0x3du8];
    assert(pad_count(q) == 2);
    assert((x / 4) as u32 * 262144 + (((x % 4) * 16) as u8) as u32 * 4096 == x as u32 * 65536)
        by (bit_vector);
    assert((x as u32 * 65536) / 65536 == x as u32) by (bit_vector);
    assert(group_value(a, b, 0, 0) == x * 65536);
    assert(decode_group(q).unwrap() =~= seq![x]);
}

/// A last group of two bytes, padded with `=`, decodes back to them.
proof fn lemma_pair_round_trip(x: u8, y: u8)
    ensures
        decode_group(
            seq![
                base64_char(x / 4),
                base64_char(((x % 4) * 16 + y / 16) as u8),
                base64_char(((y % 16) * 4) as u8),
                0x3du8,
            ],
        ) == Some(seq![x, y]),
{
    let a = x / 4;
    let b = ((x % 4) * 16 + y / 16) as u8;
    let c = ((y % 16) * 4) as u8;
    assert((x % 4) * 16 + y / 16 < 64 && (y % 16) * 4 < 64) by (bit_vector);
    lemma_base64_char(a);
    lemma_base64_char(b);
    lemma_base64_char(c);
    let q = seq![base64_char(a), base64_char(b), base64_char(c), 0x3du8];
    assert(pad_count(q) == 1);
    assert((x / 4) as u32 * 262144 + (((x % 4) * 16 + y / 16) as u8) as u32 * 4096 + (((y % 16)
        * 4) as u8) as u32 * 64 == x as u32 * 65536 + y as u32 * 256) by (bit_vector);
    assert((x as u32 * 65536 + y as u32 * 256) / 65536 == x as u32) by (bit_vector);
    assert(((x as u32 * 65536 + y as u32 * 256) / 256) % 256 == y as u32) by (bit_vector);
    assert(group_value(a, b, c, 0) == x * 65536 + y * 256);
    assert(decode_group(q).unwrap() =~= seq![x, y]);
}

/// The characters of `k` whole groups: four per group, group `i` at `4 * i`.
proof fn lemma_encode_triples_shape(b: Seq<u8>, k: nat, i: int)
    requires
        3 * k <= b.len(),
        0 <= i < k,
    ensures
        encode_triples(b, k).len() == 4 * k,
        encode_triples(b, k).subrange(4 * i, 4 * i + 4) == encode_triple(
            b[3 * i],
            b[3 * i + 1],
            b[3 * i + 2],
        ),
    decreases k,
{
    let prev = encode_triples(b, (k - 1) as nat);
    if k > 1 {
        lemma_encode_triples_len(b, (k - 1) as nat);
    }
    if i < k - 1 {
        lemma_encode_triples_shape(b, (k - 1) as nat, i);
        assert(encode_triples(b, k).subrange(4 * i, 4 * i + 4) =~= prev.subrange(4 * i, 4 * i + 4));
    } else {
        assert(encode_triples(b, k).subrange(4 * i, 4 * i + 4) =~= encode_triple(
            b[3 * i],
            b[3 * i + 1],
            b[3 * i + 2],
        ));
    }
}

proof fn lemma_encode_triples_len(b: Seq<u8>, k: nat)
    ensures
        encode_triples(b, k).len() == 4 * k,
    decreases k,
{
    if k > 0 {
        lemma_encode_triples_len(b, (k - 1) as nat);
    }
}

/// The first `k` groups of `e` decode to the first `3 * k` bytes of `b`, when
/// `e` starts with the encoding of `kk >= k` whole groups of `b`.
proof fn lemma_decode_triples(b: Seq<u8>, e: Seq<u8>, kk: nat, k: nat)
    requires
        3 * kk <= b.len(),
        k <= kk,
        e.len() >= 4 * kk,
        e.subrange(0, 4 * kk as int) == encode_triples(b, kk),
    ensures
        decode_groups(e, k) == Some(b.subrange(0, 3 * k as int)),
    decreases k,
{
    if k == 0 {
        assert(b.subrange(0, 0) =~= Seq::<u8>::empty());
    } else {
        lemma_decode_triples(b, e, kk, (k - 1) as nat);
        let i = k - 1;
        lemma_encode_triples_shape(b, kk, i);
        assert(e.subrange(4 * i, 4 * k as int) =~= e.subrange(0, 4 * kk as int).subrange(4 * i, 4 * i + 4));
        lemma_triple_round_trip(b[3 * i], b[3 * i + 1], b[3 * i + 2]);
        assert(b.subrange(0, 3 * i) + seq![b[3 * i], b[3 * i + 1], b[3 * i + 2]] =~= b.subrange(
            0,
            3 * k as int,
        ));
    }
}

/// Text without whitespace is left as it is.
proof fn lemma_strip_ws_keeps(s: Seq<u8>)
    requires
        forall|i: int| 0 <= i < s.len() ==> !is_ascii_ws(#[trigger] s[i]),
    ensures
        strip_ws(s) == s,
    decreases s.len(),
{
    if s.len() > 0 {
        lemma_strip_ws_keeps(s.drop_last());
        assert(s.drop_last().push(s.last()) =~= s);
    }
}

/// No character of a full group is whitespace.
proof fn lemma_triple_no_ws(x: u8, y: u8, z: u8)
    ensures
        forall|i: int| 0 <= i < 4 ==> !is_ascii_ws(#[trigger] encode_triple(x, y, z)[i]),
{
    assert((x % 4) * 16 + y / 16 < 64 && (y % 16) * 4 + z / 64 < 64) by (bit_vector);
    lemma_base64_char(x / 4);
    lemma_base64_char(((x % 4) * 16 + y / 16) as u8);
    lemma_base64_char(((y % 16) * 4 + z / 64) as u8);
    lemma_base64_char(z % 64);
}

/// No character of the whole groups is whitespace.
proof fn lemma_triples_no_ws(b: Seq<u8>, k: nat)
    requires
        3 * k <= b.len(),
    ensures
        forall|i: int| 0 <= i < 4 * k ==> !is_ascii_ws(#[trigger] encode_triples(b, k)[i]),
    decreases k,
{
    lemma_encode_triples_len(b, k);
    if k > 0 {
        let j = 3 * (k - 1);
        lemma_triples_no_ws(b, (k - 1) as nat);
        lemma_encode_triples_len(b, (k - 1) as nat);
        lemma_triple_no_ws(b[j], b[j + 1], b[j + 2]);
        let prev = encode_triples(b, (k - 1) as nat);
        let t = encode_triple(b[j], b[j + 1], b[j + 2]);
        assert forall|i: int| 0 <= i < 4 * k implies !is_ascii_ws(
            #[trigger] encode_triples(b, k)[i],
        ) by {
            if i < 4 * (k - 1) {
                assert(encode_triples(b, k)[i] == prev[i]);
            } else {
                assert(encode_triples(b, k)[i] == t[i - 4 * (k - 1)]);
            }
        }
    }
}

/// The encoding holds no whitespace.
proof fn lemma_encoding_no_ws(b: Seq<u8>)
    ensures
        forall|i: int|
            0 <= i < spec_base64_encode(b).len() ==> !is_ascii_ws(
                #[trigger] spec_base64_encode(b)[i],
            ),
{
    let e = spec_base64_encode(b);
    let kn: nat = b.len() / 3;
    let head = encode_triples(b, kn);
    lemma_encode_triples_len(b, kn);
    lemma_triples_no_ws(b, kn);
    if b.len() % 3 != 0 {
        let x = b[3 * kn as int];
        lemma_base64_char(x / 4);
        assert((x % 4) * 16 < 64) by (bit_vector);
        lemma_base64_char(((x % 4) * 16) as u8);
        if b.len() % 3 == 2 {
            let y = b[3 * kn as int + 1];
            assert((x % 4) * 16 + y / 16 < 64 && (y % 16) * 4 < 64) by (bit_vector);
            lemma_base64_char(((x % 4) * 16 + y / 16) as u8);
            lemma_base64_char(((y % 16) * 4) as u8);
        }
    }
    assert forall|i: int| 0 <= i < e.len() implies !is_ascii_ws(#[trigger] e[i]) by {
        if i < 4 * kn {
            assert(e[i] == head[i]);
        }
    }
}

/// The groups of the encoding decode to the bytes.
proof fn lemma_encoding_groups(b: Seq<u8>)
    ensures
        spec_base64_encode(b).len() % 4 == 0,
        decode_groups(spec_base64_encode(b), spec_base64_encode(b).len() / 4) == Some(b),
{
    let e = spec_base64_encode(b);
    let kn: nat = b.len() / 3;
    let k = kn as int;
    let head = encode_triples(b, kn);
    lemma_encode_triples_len(b, kn);
    assert(e.subrange(0, 4 * k) =~= head);
    lemma_decode_triples(b, e, kn, kn);
    if b.len() % 3 == 0 {
        assert(b.subrange(0, 3 * k) =~= b);
    } else {
        lemma_tail_group(b);
    }
}

/// With a last group of one or two bytes, it decodes after the whole groups.
proof fn lemma_tail_group(b: Seq<u8>)
    requires
        b.len() % 3 != 0,
        decode_groups(spec_base64_encode(b), b.len() / 3) == Some(
            b.subrange(0, 3 * (b.len() / 3) as int),
        ),
    ensures
        spec_base64_encode(b).len() == 4 * (b.len() / 3) + 4,
        decode_groups(spec_base64_encode(b), b.len() / 3 + 1) == Some(b),
{
    let e = spec_base64_encode(b);
    let kn: nat = b.len() / 3;
    let k = kn as int;
    lemma_encode_triples_len(b, kn);
    let q = e.subrange(4 * k, 4 * k + 4);
    let x = b[3 * k];
    if b.len() % 3 == 1 {
        assert(q =~= seq![base64_char(x / 4), base64_char(((x % 4) * 16) as u8), 0x3du8, 0x3du8]);
        lemma_single_round_trip(x);
        assert(b.subrange(0, 3 * k) + seq![x] =~= b);
    } else {
        let y = b[3 * k + 1];
        assert(q =~= seq![
            base64_char(x / 4),
            base64_char(((x % 4) * 16 + y / 16) as u8),
            base64_char(((y % 16) * 4) as u8),
            0x3du8,
        ]);
        lemma_pair_round_trip(x, y);
        assert(b.subrange(0, 3 * k) + seq![x, y] =~= b);
    }
}

/// Decoding undoes standard padded base64 encoding, also with ASCII
/// whitespace inserted anywhere in the encoded text (`w` is such a text:
/// leaving out its whitespace gives the encoding of `b`).
pub proof fn lemma_decode_inverts_encode(b: Seq<u8>, w: Seq<u8>)
    requires
        strip_ws(w) == spec_base64_encode(b),
    ensures
        spec_base64_decode(spec_base64_encode(b)) == Some(b),
        spec_base64_decode(w) == Some(b),
{
    let e = spec_base64_encode(b);
    lemma_encoding_no_ws(b);
    lemma_strip_ws_keeps(e);
    lemma_encoding_groups(b);
    lemma_decode_ignores_whitespace(w);
}

/// A byte that is not whitespace survives leaving the whitespace out.
proof fn lemma_strip_ws_keeps_byte(s: Seq<u8>, i: int)
    requires
        0 <= i < s.len(),
        !is_ascii_ws(s[i]),
    ensures
        exists|j: int| 0 <= j < strip_ws(s).len() && #[trigger] strip_ws(s)[j] == s[i],
    decreases s.len(),
{
    let rest = strip_ws(s.drop_last());
    if i == s.len() - 1 {
        assert(strip_ws(s)[rest.len() as int] == s[i]);
    } else {
        lemma_strip_ws_keeps_byte(s.drop_last(), i);
        let j = choose|j: int| 0 <= j < rest.len() && #[trigger] rest[j] == s.drop_last()[i];
        assert(strip_ws(s)[j] == s[i]);
    }
}

/// Malformed text decodes to nothing: when the bytes left after leaving out
/// whitespace are not a multiple of four, or when a byte other than
/// whitespace is neither in the alphabet nor `=`.
pub proof fn lemma_decode_rejects(s: Seq<u8>, i: int)
    ensures
        strip_ws(s).len() % 4 != 0 ==> spec_base64_decode(s) is None,
        0 <= i < s.len() && !is_ascii_ws(s[i]) && !is_pad(s[i]) && sextet(s[i]) is None
            ==> spec_base64_decode(s) is None,
{
    let t = strip_ws(s);
    if 0 <= i < s.len() && !is_ascii_ws(s[i]) && !is_pad(s[i]) && sextet(s[i]) is None && t.len()
        % 4 == 0 {
        lemma_strip_ws_keeps_byte(s, i);
        let j = choose|j: int| 0 <= j < t.len() && #[trigger] t[j] == s[i];
        let g = j / 4;
        let q = t.subrange(4 * g, 4 * g + 4);
        assert(q[j - 4 * g] == s[i]);
        assert(tail_sextet(s[i]) is None);
        assert(decode_group(q) is None);
        assert(decode_groups(t, (g + 1) as nat) is None);
        lemma_groups_fail_onward(t, (g + 1) as nat, t.len() / 4);
    }
}

} // verus!
