//! Byte-level building blocks of board and share codes: lowercase hex text
//! and little-endian integers.
use vstd::prelude::*;
use vstd::string::*;
use vstd::utf8::{encode_utf8, is_ascii_chars};

verus! {

/// The lowercase hex digit for `d < 16`.
pub open spec fn hex_digit(d: nat) -> char {
    if d < 10 {
        (48 + d) as char
    } else {
        (87 + d) as char
    }
}

/// Each byte of `b` as two lowercase hex digits, high nibble first.
pub open spec fn hex_chars(b: Seq<u8>) -> Seq<char> {
    Seq::new(
        2 * b.len(),
        |i: int|
            if i % 2 == 0 {
                hex_digit((b[i / 2] / 16) as nat)
            } else {
                hex_digit((b[i / 2] % 16) as nat)
            },
    )
}

/// The value of an ASCII hex digit (either case); `None` for any other byte.
pub open spec fn digit_value(c: u8) -> Option<u8> {
    if 48 <= c <= 57 {
        Some((c - 48) as u8)
    } else if 97 <= c <= 102 {
        Some((c - 87) as u8)
    } else if 65 <= c <= 70 {
        Some((c - 55) as u8)
    } else {
        None
    }
}

/// Both bytes of pair `i` of `h` are hex digits.
pub open spec fn pair_ok(h: Seq<u8>, i: int) -> bool {
    digit_value(h[2 * i]) is Some && digit_value(h[2 * i + 1]) is Some
}

/// The byte that pair `i` of `h` spells.
pub open spec fn pair_value(h: Seq<u8>, i: int) -> u8 {
    (digit_value(h[2 * i]).unwrap() * 16 + digit_value(h[2 * i + 1]).unwrap()) as u8
}

/// The bytes that the text `h` spells two hex digits at a time; a last odd
/// byte is ignored. `None` when some pair is not two hex digits.
pub open spec fn unhex(h: Seq<u8>) -> Option<Seq<u8>> {
    if forall|i: int| 0 <= i < h.len() / 2 ==> #[trigger] pair_ok(h, i) {
        Some(Seq::new(h.len() / 2, |i: int| pair_value(h, i)))
    } else {
        None
    }
}

/// Little-endian bytes of a 16-bit value.
pub open spec fn le16(v: u16) -> Seq<u8> {
    seq![(v & 0xff) as u8, ((v >> 8u16) & 0xff) as u8]
}

/// Little-endian bytes of a 64-bit value.
pub open spec fn le64(v: u64) -> Seq<u8> {
    seq![
        (v & 0xff) as u8,
        ((v >> 8u64) & 0xff) as u8,
        ((v >> 16u64) & 0xff) as u8,
        ((v >> 24u64) & 0xff) as u8,
        ((v >> 32u64) & 0xff) as u8,
        ((v >> 40u64) & 0xff) as u8,
        ((v >> 48u64) & 0xff) as u8,
        ((v >> 56u64) & 0xff) as u8,
    ]
}

/// The 16-bit value stored little-endian at `s[at..at + 2]`.
pub open spec fn read16(s: Seq<u8>, at: int) -> u16 {
    (s[at] as u16 | ((s[at + 1] as u16) << 8u16)) as u16
}

/// The 64-bit value stored little-endian at `s[at..at + 8]`.
pub open spec fn read64(s: Seq<u8>, at: int) -> u64 {
    (s[at] as u64 | ((s[at + 1] as u64) << 8u64) | ((s[at + 2] as u64) << 16u64) | ((s[at + 3] as u64)
        << 24u64) | ((s[at + 4] as u64) << 32u64) | ((s[at + 5] as u64) << 40u64) | ((s[at + 6] as u64)
        << 48u64) | ((s[at + 7] as u64) << 56u64)) as u64
}

pub proof fn lemma_read16(v: u16)
    ensures
        read16(le16(v), 0) == v,
{
    let b0 = (v & 0xff) as u8;
    let b1 = ((v >> 8u16) & 0xff) as u8;
    assert(le16(v)[0] == b0 && le16(v)[1] == b1);
    assert((b0 as u16 | ((b1 as u16) << 8u16)) as u16 == v) by (bit_vector)
        requires
            b0 == (v & 0xff) as u8,
            b1 == ((v >> 8u16) & 0xff) as u8,
    ;
}

pub proof fn lemma_read64(v: u64)
    ensures
        read64(le64(v), 0) == v,
{
    let s = le64(v);
    let b0 = s[0];
    let b1 = s[1];
    let b2 = s[2];
    let b3 = s[3];
    let b4 = s[4];
    let b5 = s[5];
    let b6 = s[6];
    let b7 = s[7];
    assert((b0 as u64 | ((b1 as u64) << 8u64) | ((b2 as u64) << 16u64) | ((b3 as u64) << 24u64) | ((
    b4 as u64) << 32u64) | ((b5 as u64) << 40u64) | ((b6 as u64) << 48u64) | ((b7 as u64) << 56u64))
        == v) by (bit_vector)
        requires
            b0 == (v & 0xff) as u8,
            b1 == ((v >> 8u64) & 0xff) as u8,
            b2 == ((v >> 16u64) & 0xff) as u8,
            b3 == ((v >> 24u64) & 0xff) as u8,
            b4 == ((v >> 32u64) & 0xff) as u8,
            b5 == ((v >> 40u64) & 0xff) as u8,
            b6 == ((v >> 48u64) & 0xff) as u8,
            b7 == ((v >> 56u64) & 0xff) as u8,
    ;
}

/// A little-endian value read inside either part of a concatenation.
pub proof fn lemma_read_concat(x: Seq<u8>, y: Seq<u8>, at: int)
    requires
        0 <= at,
    ensures
        at + 2 <= x.len() ==> read16(x + y, at) == read16(x, at),
        at + 8 <= x.len() ==> read64(x + y, at) == read64(x, at),
        at + 2 <= y.len() ==> read16(x + y, x.len() + at) == read16(y, at),
        at + 8 <= y.len() ==> read64(x + y, x.len() + at) == read64(y, at),
{
    let s = x + y;
    let k = x.len() as int;
    if at + 8 <= x.len() {
        assert(s[at] == x[at] && s[at + 1] == x[at + 1] && s[at + 2] == x[at + 2] && s[at + 3] == x[at
            + 3]);
        assert(s[at + 4] == x[at + 4] && s[at + 5] == x[at + 5] && s[at + 6] == x[at + 6] && s[at + 7]
            == x[at + 7]);
    }
    if at + 2 <= x.len() {
        assert(s[at] == x[at] && s[at + 1] == x[at + 1]);
    }
    if at + 8 <= y.len() {
        assert(s[k + at] == y[at] && s[k + at + 1] == y[at + 1] && s[k + at + 2] == y[at + 2] && s[k
            + at + 3] == y[at + 3]);
        assert(s[k + at + 4] == y[at + 4] && s[k + at + 5] == y[at + 5] && s[k + at + 6] == y[at + 6]
            && s[k + at + 7] == y[at + 7]);
    }
    if at + 2 <= y.len() {
        assert(s[k + at] == y[at] && s[k + at + 1] == y[at + 1]);
    }
}

/// Two buffers that store the same 16-bit value at `at` agree on its two
/// bytes.
pub proof fn lemma_read16_determines(x: Seq<u8>, y: Seq<u8>, at: int)
    requires
        0 <= at,
        at + 2 <= x.len(),
        at + 2 <= y.len(),
        read16(x, at) == read16(y, at),
    ensures
        x[at] == y[at],
        x[at + 1] == y[at + 1],
{
    let (x0, x1, y0, y1) = (x[at], x[at + 1], y[at], y[at + 1]);
    assert(x0 == y0 && x1 == y1) by (bit_vector)
        requires
            (x0 as u16 | ((x1 as u16) << 8u16)) as u16 == (y0 as u16 | ((y1 as u16) << 8u16)) as u16,
    ;
}

/// Two buffers that store the same 64-bit value at `at` agree on its eight
/// bytes.
pub proof fn lemma_read64_determines(x: Seq<u8>, y: Seq<u8>, at: int)
    requires
        0 <= at,
        at + 8 <= x.len(),
        at + 8 <= y.len(),
        read64(x, at) == read64(y, at),
    ensures
        forall|i: int| at <= i < at + 8 ==> x[i] == y[i],
{
    let (x0, x1, x2, x3, x4, x5, x6, x7) = (x[at], x[at + 1], x[at + 2], x[at + 3], x[at + 4], x[at + 5], x[at + 6], x[at + 7]);
    let (y0, y1, y2, y3, y4, y5, y6, y7) = (y[at], y[at + 1], y[at + 2], y[at + 3], y[at + 4], y[at + 5], y[at + 6], y[at + 7]);
    assert(x0 == y0 && x1 == y1 && x2 == y2 && x3 == y3 && x4 == y4 && x5 == y5 && x6 == y6 && x7 == y7) by (bit_vector)
        requires
            (x0 as u64 | ((x1 as u64) << 8u64) | ((x2 as u64) << 16u64) | ((x3 as u64) << 24u64) | ((x4 as u64) << 32u64) | ((x5 as u64) << 40u64) | ((x6 as u64) << 48u64) | ((x7 as u64) << 56u64)) as u64
                == (y0 as u64 | ((y1 as u64) << 8u64) | ((y2 as u64) << 16u64) | ((y3 as u64) << 24u64) | ((y4 as u64) << 32u64) | ((y5 as u64) << 40u64) | ((y6 as u64) << 48u64) | ((y7 as u64) << 56u64)) as u64,
    ;
}

/// Two buffers that store the same `count` 16-bit values from `start`
/// agree on all their bytes.
pub proof fn lemma_words_agree(x: Seq<u8>, y: Seq<u8>, start: int, count: nat)
    requires
        0 <= start,
        start + 2 * count <= x.len(),
        start + 2 * count <= y.len(),
        forall|k: int| 0 <= k < count ==> #[trigger] read16(x, start + 2 * k) == read16(y, start + 2 * k),
    ensures
        forall|i: int| start <= i < start + 2 * count ==> x[i] == y[i],
{
    assert forall|i: int| start <= i < start + 2 * count implies x[i] == y[i] by {
        let k = (i - start) / 2;
        assert(read16(x, start + 2 * k) == read16(y, start + 2 * k));
        lemma_read16_determines(x, y, start + 2 * k);
    }
}

/// Two buffers that store the same `count` 64-bit values from `start`
/// agree on all their bytes.
pub proof fn lemma_u64s_agree(x: Seq<u8>, y: Seq<u8>, start: int, count: nat)
    requires
        0 <= start,
        start + 8 * count <= x.len(),
        start + 8 * count <= y.len(),
        forall|k: int| 0 <= k < count ==> #[trigger] read64(x, start + 8 * k) == read64(y, start + 8 * k),
    ensures
        forall|i: int| start <= i < start + 8 * count ==> x[i] == y[i],
{
    assert forall|i: int| start <= i < start + 8 * count implies x[i] == y[i] by {
        let k = (i - start) / 8;
        assert(read64(x, start + 8 * k) == read64(y, start + 8 * k));
        lemma_read64_determines(x, y, start + 8 * k);
    }
}

/// Decoded hex has one byte per two characters.
pub proof fn lemma_unhex_len(h: Seq<u8>)
    requires
        unhex(h) is Some,
    ensures
        unhex(h).unwrap().len() == h.len() / 2,
{
}

/// Decoding a whole text decodes every even-aligned part of it the same way.
pub proof fn lemma_unhex_part(h: Seq<u8>, b: Seq<u8>, i: int, j: int)
    requires
        unhex(h) == Some(b),
        0 <= i <= j <= b.len(),
    ensures
        unhex(h.subrange(2 * i, 2 * j)) == Some(b.subrange(i, j)),
{
    let p = h.subrange(2 * i, 2 * j);
    assert(p.len() / 2 == j - i);
    assert forall|k: int| 0 <= k < p.len() / 2 implies #[trigger] pair_ok(p, k) && pair_value(p, k)
        == b[i + k] by {
        assert(pair_ok(h, i + k));
        assert(p[2 * k] == h[2 * (i + k)]);
        assert(p[2 * k + 1] == h[2 * (i + k) + 1]);
    }
    assert(unhex(p).unwrap() =~= b.subrange(i, j));
}

/// Hex text decodes back to the bytes it was written from.
pub proof fn lemma_unhex_hex(b: Seq<u8>, h: Seq<u8>)
    requires
        h == encode_utf8(hex_chars(b)),
    ensures
        unhex(h) == Some(b),
        h.len() == 2 * b.len(),
{
    let c = hex_chars(b);
    assert(is_ascii_chars(c)) by {
        assert forall|i: int| 0 <= i < c.len() implies '\0' <= #[trigger] c[i] <= '\u{7f}' by {
            lemma_hex_digit_value((b[i / 2] / 16) as nat);
            lemma_hex_digit_value((b[i / 2] % 16) as nat);
        }
    }
    vstd::utf8::is_ascii_chars_encode_utf8(c);
    assert(h.len() == 2 * b.len());
    assert forall|i: int| 0 <= i < h.len() / 2 implies #[trigger] pair_ok(h, i) && pair_value(h, i)
        == b[i] by {
        let hi = (b[i] / 16) as nat;
        let lo = (b[i] % 16) as nat;
        assert(c[2 * i] == hex_digit(hi));
        assert(c[2 * i + 1] == hex_digit(lo));
        lemma_hex_digit_value(hi);
        lemma_hex_digit_value(lo);
        assert(h[2 * i] == c[2 * i] as u8);
        assert(h[2 * i + 1] == c[2 * i + 1] as u8);
    }
    assert(unhex(h).unwrap() =~= b);
}

/// A hex digit is ASCII and reads back as its value.
pub proof fn lemma_hex_digit_value(d: nat)
    requires
        d < 16,
    ensures
        '\0' <= hex_digit(d) <= '\u{7f}',
        digit_value(hex_digit(d) as u8) == Some(d as u8),
{
}

/// The value of the hex digit `c`, if it is one.
pub fn digit(c: u8) -> (r: Option<u8>)
    ensures
        r == digit_value(c),
{
    if 48 <= c && c <= 57 {
        Some(c - 48)
    } else if 97 <= c && c <= 102 {
        Some(c - 87)
    } else if 65 <= c && c <= 70 {
        Some(c - 55)
    } else {
        None
    }
}

/// The bytes that `hex[from..to]` spells, two hex digits at a time;
/// `None` if any pair is not two hex digits.
pub fn unhex_range(hex: &[u8], from: usize, to: usize) -> (r: Option<Vec<u8>>)
    requires
        from <= to <= hex@.len(),
        (to - from) % 2 == 0,
    ensures
        r matches Some(v) ==> unhex(hex@.subrange(from as int, to as int)) == Some(v@),
        r is None ==> unhex(hex@.subrange(from as int, to as int)) is None,
{
    let ghost h = hex@.subrange(from as int, to as int);
    let mut out: Vec<u8> = Vec::new();
    let mut i: usize = from;
    while i < to
        invariant
            from <= i <= to <= hex@.len(),
            (to - from) % 2 == 0,
            (i - from) % 2 == 0,
            h == hex@.subrange(from as int, to as int),
            out@.len() == (i - from) / 2,
            forall|k: int| 0 <= k < out@.len() ==> #[trigger] pair_ok(h, k) && out@[k] == pair_value(h, k),
        decreases to - i,
    {
        let ghost k = ((i - from) / 2) as int;
        assert(h[2 * k] == hex@[i as int]);
        assert(h[2 * k + 1] == hex@[i + 1]);
        let hi = digit(hex[i]);
        let lo = digit(hex[i + 1]);
        match (hi, lo) {
            (Some(a), Some(b)) => {
                out.push(a * 16 + b);
            },
            _ => {
                assert(!pair_ok(h, k));
                return None;
            },
        }
        i = i + 2;
    }
    assert(i == to);
    assert(h.len() == to - from);
    assert(out@.len() == h.len() / 2);
    assert forall|k: int| 0 <= k < h.len() / 2 implies #[trigger] pair_ok(h, k) by {
        assert(pair_ok(h, k) && out@[k] == pair_value(h, k));
    }
    assert forall|k: int| 0 <= k < h.len() / 2 implies out@[k] == #[trigger] pair_value(h, k) by {
        assert(pair_ok(h, k) && out@[k] == pair_value(h, k));
    }
    assert(out@ =~= Seq::new(h.len() / 2, |k: int| pair_value(h, k)));
    Some(out)
}

/// The bytes that `hex` spells two hex digits at a time, a last odd digit
/// ignored; `None` if any pair is not two hex digits.
pub fn unhex_all(hex: &[u8]) -> (r: Option<Vec<u8>>)
    ensures
        r matches Some(v) ==> unhex(hex@) == Some(v@),
        r is None ==> unhex(hex@) is None,
{
    let even = hex.len() - hex.len() % 2;
    let ghost h = hex@;
    let ghost p = h.subrange(0, even as int);
    assert(p.len() / 2 == h.len() / 2);
    assert forall|i: int| 0 <= i < h.len() / 2 implies (#[trigger] pair_ok(p, i) <==> pair_ok(h, i))
        && pair_value(p, i) == pair_value(h, i) by {
        assert(p[2 * i] == h[2 * i] && p[2 * i + 1] == h[2 * i + 1]);
    }
    let r = unhex_range(hex, 0, even);
    proof {
        if r is Some {
            assert forall|i: int| 0 <= i < h.len() / 2 implies #[trigger] pair_ok(h, i) by {
                assert(pair_ok(p, i));
            }
            assert(Seq::new(h.len() / 2, |i: int| pair_value(h, i)) =~= Seq::new(
                p.len() / 2,
                |i: int| pair_value(p, i),
            ));
        } else {
            if forall|i: int| 0 <= i < h.len() / 2 ==> #[trigger] pair_ok(h, i) {
                assert forall|i: int| 0 <= i < p.len() / 2 implies #[trigger] pair_ok(p, i) by {
                    assert(pair_ok(h, i));
                }
            }
        }
    }
    r
}

/// A one-character string holding the hex digit `d`.
fn hex_digit_str(d: u8) -> (s: &'static str)
    requires
        d < 16,
    ensures
        s@ == seq![hex_digit(d as nat)],
{
    proof {
        reveal_strlit("0");
        reveal_strlit("1");
        reveal_strlit("2");
        reveal_strlit("3");
        reveal_strlit("4");
        reveal_strlit("5");
        reveal_strlit("6");
        reveal_strlit("7");
        reveal_strlit("8");
        reveal_strlit("9");
        reveal_strlit("a");
        reveal_strlit("b");
        reveal_strlit("c");
        reveal_strlit("d");
        reveal_strlit("e");
        reveal_strlit("f");
    }
    match d {
        0 => "0",
        1 => "1",
        2 => "2",
        3 => "3",
        4 => "4",
        5 => "5",
        6 => "6",
        7 => "7",
        8 => "8",
        9 => "9",
        10 => "a",
        11 => "b",
        12 => "c",
        13 => "d",
        14 => "e",
        _ => "f",
    }
}

/// `bytes` as lowercase hex text.
pub fn to_hex(bytes: &[u8]) -> (r: String)
    ensures
        r@ == hex_chars(bytes@),
{
    let mut out = String::new();
    let mut i: usize = 0;
    while i < bytes.len()
        invariant
            i <= bytes@.len(),
            out@ == hex_chars(bytes@.subrange(0, i as int)),
        decreases bytes@.len() - i,
    {
        let b = bytes[i];
        let ghost before = out@;
        out.append(hex_digit_str(b / 16));
        out.append(hex_digit_str(b % 16));
        assert(out@ =~= hex_chars(bytes@.subrange(0, i + 1)));
        i = i + 1;
    }
    assert(bytes@.subrange(0, bytes@.len() as int) =~= bytes@);
    out
}

/// Appends the little-endian bytes of `v`.
pub fn push16(out: &mut Vec<u8>, v: u16)
    ensures
        final(out)@ == old(out)@ + le16(v),
{
    out.push((v & 0xff) as u8);
    out.push(((v >> 8) & 0xff) as u8);
    assert(final(out)@ =~= old(out)@ + le16(v));
}

/// Appends the little-endian bytes of `v`.
pub fn push64(out: &mut Vec<u8>, v: u64)
    ensures
        final(out)@ == old(out)@ + le64(v),
{
    out.push((v & 0xff) as u8);
    out.push(((v >> 8) & 0xff) as u8);
    out.push(((v >> 16) & 0xff) as u8);
    out.push(((v >> 24) & 0xff) as u8);
    out.push(((v >> 32) & 0xff) as u8);
    out.push(((v >> 40) & 0xff) as u8);
    out.push(((v >> 48) & 0xff) as u8);
    out.push(((v >> 56) & 0xff) as u8);
    assert(final(out)@ =~= old(out)@ + le64(v));
}

/// The 16-bit value stored little-endian at `s[at..at + 2]`.
pub fn get16(s: &[u8], at: usize) -> (r: u16)
    requires
        at + 2 <= s@.len(),
    ensures
        r == read16(s@, at as int),
{
    (s[at] as u16 | ((s[at + 1] as u16) << 8)) as u16
}

/// The 64-bit value stored little-endian at `s[at..at + 8]`.
pub fn get64(s: &[u8], at: usize) -> (r: u64)
    requires
        at + 8 <= s@.len(),
    ensures
        r == read64(s@, at as int),
{
    s[at] as u64 | ((s[at + 1] as u64) << 8) | ((s[at + 2] as u64) << 16) | ((s[at + 3] as u64) << 24)
        | ((s[at + 4] as u64) << 32) | ((s[at + 5] as u64) << 40) | ((s[at + 6] as u64) << 48) | ((s[at
        + 7] as u64) << 56)
}

} // verus!
