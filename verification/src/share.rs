//! Share links: a packing of squares written as hex in the `s` query
//! parameter of the play page. Little-endian layout: version `u8` (1), `n`
//! as `u16`, `side` as an `f64`, then `cx`, `cy`, `theta` as `f64` for each
//! square, every `f64` as its bit pattern.
use vstd::prelude::*;
use vstd::string::*;
use vstd::utf8::encode_utf8;
use crate::board::{
    arrangement_ok, board_bytes, check_arrangement, expected_text, lemma_body, lemma_canonical_body,
    read_pieces, read_squares, squares_bytes, trailer_bytes, write_pieces, Arrangement, Placement,
};
use crate::codec::{get16, get64, hex_chars, le16, le64, lemma_unhex_hex, read16, read64, to_hex, unhex, unhex_range};
use crate::glue::Glue;
use crate::shape::Shape;
use crate::text::{decimal, owned, push_decimal};
use crate::MAX_N;

verus! {

/// Hex length of a share code for `n` squares.
pub open spec fn spec_share_len(n: nat) -> nat {
    2 * (11 + 24 * n)
}

/// The bytes of the share code of `a`.
pub open spec fn share_bytes(a: Arrangement) -> Seq<u8> {
    seq![1u8] + le16(a.n as u16) + le64(a.side) + squares_bytes(a.squares@)
}

/// The share code of `a`, as text.
pub open spec fn spec_share_encode(a: Arrangement) -> Seq<char> {
    hex_chars(share_bytes(a))
}

pub open spec fn share_not_for_text(n: nat) -> Seq<char> {
    "This share link is not for "@ + decimal(n) + " squares"@
}

pub open spec fn share_bad_hex_text() -> Seq<char> {
    "This share link is not valid hex"@
}

pub open spec fn share_version_text(v: u8) -> Seq<char> {
    "Unsupported share link version "@ + decimal(v as nat)
}

/// What decoding the share code `h` for `n` squares gives: the side and
/// the squares, or the first reason it is refused.
pub open spec fn spec_share_decode(h: Seq<u8>, n: u32) -> Result<(u64, Seq<Placement>), Seq<char>> {
    if n < 1 || n > MAX_N {
        Err("n must be between 1 and 100"@)
    } else if h.len() != spec_share_len(n as nat) {
        Err(share_not_for_text(n as nat))
    } else {
        match unhex(h) {
            None => Err(share_bad_hex_text()),
            Some(bytes) => if bytes[0] != 1 {
                Err(share_version_text(bytes[0]))
            } else if read16(bytes, 1) != n {
                Err(share_not_for_text(n as nat))
            } else {
                let side = read64(bytes, 3);
                let squares = read_squares(bytes, n as nat);
                if !arrangement_ok(Shape::Square, n as nat, n as nat, side, squares) {
                    Err(expected_text(n as nat))
                } else {
                    Ok((side, squares))
                }
            },
        }
    }
}

/// Encode the squares of `a` as a share code.
pub fn encode(a: &Arrangement) -> (r: String)
    ensures
        r@ == spec_share_encode(*a),
{
    let mut bytes: Vec<u8> = Vec::new();
    bytes.push(1);
    write_pieces(&mut bytes, a);
    assert(bytes@ =~= share_bytes(*a));
    to_hex(&bytes)
}

/// The text `This share link is not for {n} squares`.
fn not_for_message(n: u32) -> (r: String)
    ensures
        r@ == share_not_for_text(n as nat),
{
    let mut m = owned("This share link is not for ");
    push_decimal(&mut m, n);
    m.append(" squares");
    m
}

/// Decode a share code for the `n` in the page path. The length is checked
/// before anything is decoded, and the result passes the same limits as a
/// JSON import.
pub fn decode(hex: &str, n: u32) -> (r: Result<Arrangement, String>)
    ensures
        r matches Ok(a) ==> spec_share_decode(hex.spec_bytes(), n) == Ok::<(u64, Seq<Placement>), Seq<char>>(
            (a.side, a.squares@),
        ) && a.shape == Shape::Square && a.container == Shape::Square && a.n == n,
        r matches Err(e) ==> spec_share_decode(hex.spec_bytes(), n) == Err::<
            (u64, Seq<Placement>),
            Seq<char>,
        >(e@),
{
    if n < 1 || n > MAX_N {
        return Err(owned("n must be between 1 and 100"));
    }
    let h = hex.as_bytes();
    if h.len() != 2 * (11 + 24 * (n as usize)) {
        return Err(not_for_message(n));
    }
    assert(h@.subrange(0, h@.len() as int) =~= h@);
    let bytes = match unhex_range(h, 0, h.len()) {
        None => {
            return Err(owned("This share link is not valid hex"));
        },
        Some(b) => b,
    };
    assert(bytes@.len() == 11 + 24 * n);
    if bytes[0] != 1 {
        let mut m = owned("Unsupported share link version ");
        push_decimal(&mut m, bytes[0] as u32);
        return Err(m);
    }
    if get16(&bytes, 1) as u32 != n {
        return Err(not_for_message(n));
    }
    let side = get64(&bytes, 3);
    let squares = read_pieces(&bytes, n);
    let arrangement = Arrangement { container: Shape::Square, shape: Shape::Square, n, side, squares };
    match check_arrangement(&arrangement, n) {
        Ok(_) => {},
        Err(e) => {
            return Err(e);
        },
    }
    Ok(arrangement)
}

/// Decoding a share code gives back the squares it was encoded from, bit
/// for bit, for every arrangement of squares within the loading limits.
pub proof fn law_share_decode_encode(a: Arrangement)
    requires
        arrangement_ok(Shape::Square, a.n as nat, a.n as nat, a.side, a.squares@),
    ensures
        spec_share_decode(encode_utf8(spec_share_encode(a)), a.n) == Ok::<(u64, Seq<Placement>), Seq<char>>(
            (a.side, a.squares@),
        ),
{
    let bytes = share_bytes(a);
    let h = encode_utf8(spec_share_encode(a));
    lemma_unhex_hex(bytes, h);
    lemma_body(Shape::Square, Shape::Square, a.n, a.side, a.squares@, Seq::<Glue>::empty());
    assert(crate::board::board_bytes(Shape::Square, Shape::Square, a.n, a.side, a.squares@, Seq::<Glue>::empty()) =~= bytes);
}

/// Decoding a share code loses nothing: the bytes it spells are exactly
/// the bytes of the squares it decodes to, so encoding them gives the code
/// back, up to the case of its hex letters.
pub proof fn law_share_code_is_canonical(h: Seq<u8>, n: u32)
    requires
        spec_share_decode(h, n) is Ok,
    ensures
        ({
            let (side, squares) = spec_share_decode(h, n)->Ok_0;
            unhex(h) == Some(board_bytes(Shape::Square, Shape::Square, n, side, squares, Seq::<Glue>::empty()))
        }),
{
    let bytes = unhex(h).unwrap();
    let b = board_bytes(Shape::Square, Shape::Square, n, read64(bytes, 3), read_squares(bytes, n as nat), Seq::<Glue>::empty());
    assert(bytes.len() == 11 + 24 * n);
    lemma_canonical_body(bytes, Shape::Square, Shape::Square, n, Seq::<Glue>::empty());
    crate::board::lemma_squares_bytes(read_squares(bytes, n as nat));
    assert(trailer_bytes(Shape::Square, Shape::Square, Seq::<Glue>::empty()) =~= Seq::<u8>::empty());
    assert(bytes =~= b);
}

} // verus!
