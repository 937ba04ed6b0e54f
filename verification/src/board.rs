//! Board codes: a board state (a packing and its glue) written as hex.
//! Little-endian layout: version `u8`, `n` as `u16`, `side` as an `f64`,
//! then `cx`, `cy`, `theta` as `f64` for each piece. Floating-point values
//! travel as their IEEE-754 bit patterns, so a packing comes back exactly as
//! it was measured. The version names the game: 1 for squares in a square,
//! the piece's side count for other pieces in a square, and 16 times the
//! container's side count plus the piece's for other containers.
//!
//! A glue trailer follows only when there is at least one glue: tag `u8`
//! (`b'G'`), trailer version `u8` (2 for squares in a square, 3 otherwise),
//! glue count `u16` (1 to [`MAX_GLUES`]), then each glue's two features as a
//! `u16` each: bits 0-1 kind (0 edge, 1 corner, 2 midpoint, 3 wall), then
//! the edge, corner or wall index (2 bits for squares in a square, 3
//! otherwise), then the piece (7 bits, 0 for a wall), and the remaining high
//! bits zero.
use vstd::prelude::*;
use vstd::string::*;
use crate::codec::{
    get16, get64, hex_chars, unhex_all, le16, le64, lemma_read16, lemma_read64, lemma_read_concat,
    lemma_read16_determines, lemma_u64s_agree, lemma_unhex_hex, lemma_unhex_len, lemma_unhex_part,
    lemma_words_agree, push16, push64, read16, read64, to_hex, unhex, unhex_range,
};
use vstd::utf8::encode_utf8;
use crate::glue::{check_in, spec_check_in, spec_check_limited, Feature, Glue, MAX_GLUES};
use crate::shape::{spec_from_sides, spec_sides, Shape};
use crate::text::{decimal, owned, push_decimal};
use crate::MAX_N;

verus! {

const VERSION: u8 = 1;

const GLUE_TAG: u8 = 71;

const GLUE_VERSION: u8 = 2;

const POLYGON_GLUE_VERSION: u8 = 3;

const TRAILER_BYTES: usize = 4;

/// Bit pattern of the `f64` 1000.0, the coordinate bound of a loaded
/// arrangement.
pub const MAX_COORD_BITS: u64 = 0x408f_4000_0000_0000;

/// Longest valid board code, for request size limits.
pub const MAX_LEN: usize = 37598;

/// One piece: center `(cx, cy)` and counter-clockwise rotation `theta` in
/// radians, each held as the bit pattern of an `f64`.
#[derive(Clone, Copy, Debug, PartialEq, Eq, Structural)]
pub struct Placement {
    pub cx: u64,
    pub cy: u64,
    pub theta: u64,
}

/// `n` pieces of `shape` packed into a `container` of side `side` (an
/// `f64` bit pattern).
#[derive(Clone, Debug, PartialEq)]
pub struct Arrangement {
    pub container: Shape,
    pub shape: Shape,
    pub n: u32,
    pub side: u64,
    pub squares: Vec<Placement>,
}

/// A board state: the packing and the glue between its features.
#[derive(Clone, Debug, PartialEq)]
pub struct BoardState {
    pub arrangement: Arrangement,
    pub glues: Vec<Glue>,
}

/// What a decoded board holds: piece shape, container shape, container
/// side, pieces, glues.
pub type BoardView = (Shape, Shape, u64, Seq<Placement>, Seq<Glue>);

impl BoardState {
    pub open spec fn view_of(&self) -> BoardView {
        (
            self.arrangement.shape,
            self.arrangement.container,
            self.arrangement.side,
            self.arrangement.squares@,
            self.glues@,
        )
    }
}

// ------------------------------------------------------------------------
// Floating-point bounds on bit patterns
// ------------------------------------------------------------------------
/// The bit pattern without its sign bit: the magnitude of the `f64`. For
/// two non-NaN magnitudes, the bit patterns order as the values do.
pub open spec fn magnitude(b: u64) -> u64 {
    b & 0x7fff_ffff_ffff_ffff
}

/// The `f64` is neither infinite nor NaN.
pub open spec fn finite_bits(b: u64) -> bool {
    magnitude(b) < 0x7ff0_0000_0000_0000
}

/// The `f64` is finite with absolute value at most 1000.
pub open spec fn coord_ok(b: u64) -> bool {
    magnitude(b) <= MAX_COORD_BITS
}

/// Bit pattern of the smallest container side for one piece of `shape`:
/// the square root of the piece's area.
pub open spec fn min_side_bits(shape: Shape) -> u64 {
    match shape {
        Shape::Triangle => 0x3fe5_0ea3_9fcb_f167,
        Shape::Square => 0x3ff0_0000_0000_0000,
        Shape::Pentagon => 0x3ff4_fc99_5de8_2c4e,
        Shape::Hexagon => 0x3ff9_ca28_5c7a_bac0,
    }
}

/// The side is a finite `f64` in `[min side of shape, 1000]`. Both bounds are
/// positive, so comparing bit patterns compares values; negative values,
/// zeros, infinities and NaNs all fall outside.
pub open spec fn side_ok(shape: Shape, b: u64) -> bool {
    min_side_bits(shape) <= b <= MAX_COORD_BITS
}

/// The piece lies within the coordinate bound and has a finite rotation.
pub open spec fn placement_ok(p: Placement) -> bool {
    coord_ok(p.cx) && coord_ok(p.cy) && finite_bits(p.theta)
}

/// The limits every loaded arrangement meets: `n` in `1..=MAX_N`, exactly
/// `n` pieces, a side in range and every piece in range.
pub open spec fn arrangement_ok(shape: Shape, n: nat, arr_n: nat, side: u64, squares: Seq<Placement>) -> bool {
    &&& 1 <= n <= MAX_N
    &&& arr_n == n
    &&& squares.len() == n
    &&& side_ok(shape, side)
    &&& forall|i: int| 0 <= i < squares.len() ==> placement_ok(#[trigger] squares[i])
}

impl Shape {
    /// Bit pattern of the smallest container side for one piece of this
    /// shape (the `f64` square root of its area).
    pub fn min_side_bits(self) -> (r: u64)
        ensures
            r == min_side_bits(self),
    {
        match self {
            Shape::Triangle => 0x3fe5_0ea3_9fcb_f167,
            Shape::Square => 0x3ff0_0000_0000_0000,
            Shape::Pentagon => 0x3ff4_fc99_5de8_2c4e,
            Shape::Hexagon => 0x3ff9_ca28_5c7a_bac0,
        }
    }
}

// ------------------------------------------------------------------------
// Layout
// ------------------------------------------------------------------------
/// Hex length of a board code for `n` pieces and `glues` glues.
pub open spec fn spec_hex_len(n: nat, glues: nat) -> nat {
    2 * (11 + 24 * n + if glues == 0 {
        0
    } else {
        4 + 4 * glues
    })
}

/// The version byte that starts a code for pieces of `shape` in
/// `container`.
pub open spec fn version_byte(shape: Shape, container: Shape) -> u8 {
    if container != Shape::Square {
        (16 * spec_sides(container) + spec_sides(shape)) as u8
    } else if shape == Shape::Square {
        1
    } else {
        spec_sides(shape) as u8
    }
}

/// The piece and container shapes a version byte stands for.
pub open spec fn version_shapes(v: u8) -> Option<(Shape, Shape)> {
    if v == 1 {
        Some((Shape::Square, Shape::Square))
    } else if v < 16 {
        match spec_from_sides(v as nat) {
            Some(s) => if s != Shape::Square {
                Some((s, Shape::Square))
            } else {
                None
            },
            None => None,
        }
    } else {
        match (spec_from_sides((v / 16) as nat), spec_from_sides((v % 16) as nat)) {
            (Some(c), Some(s)) => if c != Shape::Square {
                Some((s, c))
            } else {
                None
            },
            _ => None,
        }
    }
}

/// Features of pieces of `shape` in `container` need the wide word layout:
/// some piece face or wall has an index above 3.
pub open spec fn wide(shape: Shape, container: Shape) -> bool {
    shape != Shape::Square || container != Shape::Square
}

/// The glue trailer's version byte for pieces of `shape` in `container`.
pub open spec fn trailer_version(shape: Shape, container: Shape) -> u8 {
    if wide(shape, container) {
        3
    } else {
        2
    }
}

/// The bytes of the pieces, in order.
pub open spec fn squares_bytes(s: Seq<Placement>) -> Seq<u8>
    decreases s.len(),
{
    if s.len() == 0 {
        Seq::empty()
    } else {
        squares_bytes(s.drop_last()) + le64(s.last().cx) + le64(s.last().cy) + le64(s.last().theta)
    }
}

/// The 16-bit word of a feature (written with the truncating shifts of
/// `u16`).
pub open spec fn feature_word(f: Feature, polygon: bool) -> u16 {
    let shift: u16 = if polygon {
        5
    } else {
        4
    };
    match f {
        Feature::Edge { square, edge } => (0u16 | ((edge as u16) << 2u16) | ((square as u16)
            << shift)) as u16,
        Feature::Corner { square, corner } => (1u16 | ((corner as u16) << 2u16) | ((square as u16)
            << shift)) as u16,
        Feature::Midpoint { square, edge } => (2u16 | ((edge as u16) << 2u16) | ((square as u16)
            << shift)) as u16,
        Feature::Wall(w) => (3u16 | ((w as u16) << 2u16) | ((0u16) << shift)) as u16,
    }
}

/// The bytes of the glues' features, two words per glue.
pub open spec fn glues_bytes(g: Seq<Glue>, polygon: bool) -> Seq<u8>
    decreases g.len(),
{
    if g.len() == 0 {
        Seq::empty()
    } else {
        glues_bytes(g.drop_last(), polygon) + le16(feature_word(g.last().a, polygon)) + le16(
            feature_word(g.last().b, polygon),
        )
    }
}

/// The glue trailer: nothing without glues.
pub open spec fn trailer_bytes(shape: Shape, container: Shape, g: Seq<Glue>) -> Seq<u8> {
    if g.len() == 0 {
        Seq::empty()
    } else {
        seq![71u8, trailer_version(shape, container)] + le16(g.len() as u16) + glues_bytes(
            g,
            wide(shape, container),
        )
    }
}

/// The bytes of a board code.
pub open spec fn board_bytes(
    shape: Shape,
    container: Shape,
    n: u32,
    side: u64,
    squares: Seq<Placement>,
    g: Seq<Glue>,
) -> Seq<u8> {
    seq![version_byte(shape, container)] + le16(n as u16) + le64(side) + squares_bytes(squares)
        + trailer_bytes(shape, container, g)
}

/// The board code of `a` with glues `g`, as text.
pub open spec fn spec_encode(a: Arrangement, g: Seq<Glue>) -> Seq<char> {
    hex_chars(board_bytes(a.shape, a.container, a.n, a.side, a.squares@, g))
}

// ------------------------------------------------------------------------
// Decoding
// ------------------------------------------------------------------------
/// The feature a 16-bit word stands for; `None` for a word with reserved
/// bits set or a wall with piece bits.
pub open spec fn word_feature(bits: u16, polygon: bool) -> Option<Feature> {
    let top: u16 = if polygon {
        12
    } else {
        11
    };
    let index = ((bits >> 2u16) & if polygon {
        7u16
    } else {
        3u16
    }) as u8;
    let square = (bits >> if polygon {
        5u16
    } else {
        4u16
    }) as usize;
    if bits >> top != 0 {
        None
    } else if bits & 3 == 0 {
        Some(Feature::Edge { square, edge: index })
    } else if bits & 3 == 1 {
        Some(Feature::Corner { square, corner: index })
    } else if bits & 3 == 2 {
        Some(Feature::Midpoint { square, edge: index })
    } else if square == 0 {
        Some(Feature::Wall(index))
    } else {
        None
    }
}

/// The pieces stored after the header of `bytes`.
pub open spec fn read_squares(bytes: Seq<u8>, n: nat) -> Seq<Placement> {
    Seq::new(
        n,
        |i: int|
            Placement {
                cx: read64(bytes, 11 + 24 * i),
                cy: read64(bytes, 11 + 24 * i + 8),
                theta: read64(bytes, 11 + 24 * i + 16),
            },
    )
}

/// Feature word `k` of the glue data that starts at `start`.
pub open spec fn word_at(bytes: Seq<u8>, start: int, k: int) -> u16 {
    read16(bytes, start + 2 * k)
}

/// The `count` glues stored from `start`; the error when some word is not
/// a feature.
pub open spec fn read_glues(bytes: Seq<u8>, start: int, count: nat, polygon: bool) -> Result<
    Seq<Glue>,
    Seq<char>,
> {
    if forall|k: int| 0 <= k < 2 * count ==> #[trigger] word_feature(word_at(bytes, start, k), polygon) is Some {
        Ok(
            Seq::new(
                count,
                |i: int|
                    Glue {
                        a: word_feature(word_at(bytes, start, 2 * i), polygon).unwrap(),
                        b: word_feature(word_at(bytes, start, 2 * i + 1), polygon).unwrap(),
                    },
            ),
        )
    } else {
        Err(unknown_feature_text())
    }
}

/// How many glues the code `h` for `n` pieces of `shape` in `container`
/// declares, read from its trailer header before anything else; or why it
/// is refused.
pub open spec fn glue_count(h: Seq<u8>, n: nat, shape: Shape, container: Shape) -> Result<
    nat,
    Seq<char>,
> {
    let base = spec_hex_len(n, 0) as int;
    if h.len() == base {
        Ok(0)
    } else if h.len() < base + 8 {
        Err(not_for_text(n))
    } else {
        match unhex(h.subrange(base, base + 8)) {
            None => Err(bad_hex_text()),
            Some(t) => if t[0] != 71 || t[1] != trailer_version(shape, container) {
                Err(unsupported_glue_text())
            } else {
                let c = read16(t, 2) as nat;
                if c < 1 || c > MAX_GLUES {
                    Err(invalid_count_text())
                } else if h.len() != spec_hex_len(n, c) {
                    Err(wrong_length_text())
                } else {
                    Ok(c)
                }
            },
        }
    }
}

/// What decoding the code `h` for `n` pieces gives: the board, or the
/// first reason it is refused.
pub open spec fn spec_decode(h: Seq<u8>, n: u32) -> Result<BoardView, Seq<char>> {
    if n < 1 || n > MAX_N {
        Err(n_range_text())
    } else if h.len() < 2 {
        Err(missing_version_text())
    } else {
        match unhex(h.subrange(0, 2)) {
            None => Err(bad_hex_text()),
            Some(v) => match version_shapes(v[0]) {
                None => Err(unsupported_version_text()),
                Some((shape, container)) => match glue_count(h, n as nat, shape, container) {
                    Err(e) => Err(e),
                    Ok(count) => match unhex(h) {
                        None => Err(bad_hex_text()),
                        Some(bytes) => if read16(bytes, 1) != n {
                            Err(not_for_text(n as nat))
                        } else {
                            let side = read64(bytes, 3);
                            let squares = read_squares(bytes, n as nat);
                            if !arrangement_ok(shape, n as nat, n as nat, side, squares) {
                                Err(expected_text(n as nat))
                            } else {
                                match read_glues(
                                    bytes,
                                    (spec_hex_len(n as nat, 0) / 2 + 4) as int,
                                    count,
                                    wide(shape, container),
                                ) {
                                    Err(e) => Err(e),
                                    Ok(glues) => match spec_check_in(glues, n as nat, shape, container) {
                                        Err(e) => Err(e),
                                        Ok(_) => Ok((shape, container, side, squares, glues)),
                                    },
                                }
                            }
                        },
                    },
                },
            },
        }
    }
}

// ------------------------------------------------------------------------
// Messages
// ------------------------------------------------------------------------
pub open spec fn n_range_text() -> Seq<char> {
    "n must be between 1 and 100"@
}

pub open spec fn missing_version_text() -> Seq<char> {
    "Missing board version"@
}

pub open spec fn bad_hex_text() -> Seq<char> {
    "This board code is not valid hex"@
}

pub open spec fn unsupported_version_text() -> Seq<char> {
    "Unsupported board code version"@
}

pub open spec fn unsupported_glue_text() -> Seq<char> {
    "This board code has unsupported glue data"@
}

pub open spec fn invalid_count_text() -> Seq<char> {
    "This board code has an invalid glue count"@
}

pub open spec fn wrong_length_text() -> Seq<char> {
    "This board code's glue data has the wrong length"@
}

pub open spec fn unknown_feature_text() -> Seq<char> {
    "This board code has an unknown glue feature"@
}

pub open spec fn not_for_text(n: nat) -> Seq<char> {
    "This board code is not for "@ + decimal(n) + " squares"@
}

pub open spec fn expected_text(n: nat) -> Seq<char> {
    "Expected "@ + decimal(n) + " pieces with finite coordinates"@
}

// ------------------------------------------------------------------------
// Executable codec
// ------------------------------------------------------------------------
/// Hex length of a board code for `n` pieces and `glues` glues.
pub fn hex_len(n: u32, glues: usize) -> (r: usize)
    requires
        spec_hex_len(n as nat, glues as nat) <= usize::MAX,
    ensures
        r == spec_hex_len(n as nat, glues as nat),
{
    let trailer: usize = if glues == 0 {
        0
    } else {
        4 + 4 * glues
    };
    2 * (11 + 24 * (n as usize) + trailer)
}

/// The 16-bit word of feature `f` in a glue trailer.
pub fn word(f: Feature, polygon: bool) -> (r: u16)
    ensures
        r == feature_word(f, polygon),
{
    let shift: u16 = if polygon {
        5
    } else {
        4
    };
    match f {
        Feature::Edge { square, edge } => (0u16 | ((edge as u16) << 2u16) | ((square as u16) << shift))
            as u16,
        Feature::Corner { square, corner } => (1u16 | ((corner as u16) << 2u16) | ((square as u16)
            << shift)) as u16,
        Feature::Midpoint { square, edge } => (2u16 | ((edge as u16) << 2u16) | ((square as u16)
            << shift)) as u16,
        Feature::Wall(w) => (3u16 | ((w as u16) << 2u16) | ((0u16) << shift)) as u16,
    }
}

/// Appends the piece count, the side and the pieces of `a`.
pub fn write_pieces(bytes: &mut Vec<u8>, a: &Arrangement)
    ensures
        final(bytes)@ == old(bytes)@ + le16(a.n as u16) + le64(a.side) + squares_bytes(a.squares@),
{
    push16(bytes, a.n as u16);
    push64(bytes, a.side);
    let ghost head = bytes@;
    let mut i: usize = 0;
    while i < a.squares.len()
        invariant
            i <= a.squares@.len(),
            bytes@ == head + squares_bytes(a.squares@.take(i as int)),
        decreases a.squares@.len() - i,
    {
        let p = a.squares[i];
        push64(bytes, p.cx);
        push64(bytes, p.cy);
        push64(bytes, p.theta);
        proof {
            let t = a.squares@.take(i + 1);
            assert(t.drop_last() =~= a.squares@.take(i as int));
            assert(t.last() == p);
            assert(bytes@ =~= head + squares_bytes(t));
        }
        i = i + 1;
    }
    assert(a.squares@.take(a.squares@.len() as int) =~= a.squares@);
}

/// The version byte of a code for pieces of `shape` in `container`.
fn version_of(shape: Shape, container: Shape) -> (r: u8)
    ensures
        r == version_byte(shape, container),
{
    if !container.is_square() {
        (16 * container.sides() + shape.sides()) as u8
    } else if shape.is_square() {
        VERSION
    } else {
        shape.sides() as u8
    }
}

/// Encode `a` and its glues as a board code. Glue-free codes of squares in
/// a square keep the layout that predates glue.
pub fn encode(a: &Arrangement, glues: &[Glue]) -> (r: String)
    ensures
        r@ == spec_encode(*a, glues@),
{
    let mut bytes: Vec<u8> = Vec::new();
    let square = a.shape.is_square() && a.container.is_square();
    bytes.push(version_of(a.shape, a.container));
    let ghost first = bytes@;
    write_pieces(&mut bytes, a);
    assert(bytes@ =~= seq![version_byte(a.shape, a.container)] + le16(a.n as u16) + le64(a.side)
        + squares_bytes(a.squares@));
    let ghost body = bytes@;
    if glues.len() > 0 {
        bytes.push(GLUE_TAG);
        bytes.push(
            if square {
                GLUE_VERSION
            } else {
                POLYGON_GLUE_VERSION
            },
        );
        push16(&mut bytes, glues.len() as u16);
        let ghost lead = bytes@;
        let mut k: usize = 0;
        while k < glues.len()
            invariant
                k <= glues@.len(),
                square == !wide(a.shape, a.container),
                bytes@ == lead + glues_bytes(glues@.take(k as int), !square),
            decreases glues@.len() - k,
        {
            let g = glues[k];
            push16(&mut bytes, word(g.a, !square));
            push16(&mut bytes, word(g.b, !square));
            proof {
                let t = glues@.take(k + 1);
                assert(t.drop_last() =~= glues@.take(k as int));
                assert(t.last() == g);
                assert(bytes@ =~= lead + glues_bytes(t, !square));
            }
            k = k + 1;
        }
        assert(glues@.take(glues@.len() as int) =~= glues@);
        assert(bytes@ =~= body + trailer_bytes(a.shape, a.container, glues@));
    } else {
        assert(bytes@ =~= body + trailer_bytes(a.shape, a.container, glues@));
    }
    assert(bytes@ =~= board_bytes(a.shape, a.container, a.n, a.side, a.squares@, glues@));
    to_hex(&bytes)
}

/// The feature a trailer word stands for.
pub fn feature(bits: u16, polygon: bool) -> (r: Result<Feature, String>)
    ensures
        r matches Ok(f) ==> word_feature(bits, polygon) == Some(f),
        r matches Err(e) ==> word_feature(bits, polygon) is None && e@ == unknown_feature_text(),
{
    let top: u16 = if polygon {
        12
    } else {
        11
    };
    if bits >> top != 0 {
        return Err(owned("This board code has an unknown glue feature"));
    }
    let index = ((bits >> 2u16) & if polygon {
        7u16
    } else {
        3u16
    }) as u8;
    let square = (bits >> if polygon {
        5u16
    } else {
        4u16
    }) as usize;
    if bits & 3 == 0 {
        Ok(Feature::Edge { square, edge: index })
    } else if bits & 3 == 1 {
        Ok(Feature::Corner { square, corner: index })
    } else if bits & 3 == 2 {
        Ok(Feature::Midpoint { square, edge: index })
    } else if square == 0 {
        Ok(Feature::Wall(index))
    } else {
        Err(owned("This board code has an unknown glue feature"))
    }
}

/// Whether `b` is the bit pattern of a finite `f64`.
fn is_finite(b: u64) -> (r: bool)
    ensures
        r == finite_bits(b),
{
    b & 0x7fff_ffff_ffff_ffff < 0x7ff0_0000_0000_0000
}

/// Whether `b` is the bit pattern of a finite `f64` of absolute value at
/// most 1000.
fn in_range(b: u64) -> (r: bool)
    ensures
        r == coord_ok(b),
{
    b & 0x7fff_ffff_ffff_ffff <= MAX_COORD_BITS
}

/// The text `Expected {n} pieces with finite coordinates`.
fn expected_message(n: u32) -> (r: String)
    ensures
        r@ == expected_text(n as nat),
{
    let mut m = owned("Expected ");
    push_decimal(&mut m, n);
    m.append(" pieces with finite coordinates");
    m
}

/// The text `This board code is not for {n} squares`.
fn not_for_message(n: u32) -> (r: String)
    ensures
        r@ == not_for_text(n as nat),
{
    let mut m = owned("This board code is not for ");
    push_decimal(&mut m, n);
    m.append(" squares");
    m
}

/// Limits every loaded arrangement must meet (JSON import, board codes
/// and share links): `n` pieces, a finite side between the piece's minimum
/// and 1000, and finite bounded coordinates.
pub fn check_arrangement(arr: &Arrangement, n: u32) -> (r: Result<(), String>)
    ensures
        r is Ok <==> arrangement_ok(arr.shape, n as nat, arr.n as nat, arr.side, arr.squares@),
        r matches Err(e) ==> e@ == expected_text(n as nat),
{
    let mut ok = 1 <= n && n <= MAX_N && arr.n == n && arr.squares.len() == n as usize
        && arr.shape.min_side_bits() <= arr.side && arr.side <= MAX_COORD_BITS;
    let mut i: usize = 0;
    while ok && i < arr.squares.len()
        invariant
            i <= arr.squares@.len(),
            ok ==> forall|j: int| 0 <= j < i ==> placement_ok(#[trigger] arr.squares@[j]),
            ok ==> 1 <= n <= MAX_N && arr.n == n && arr.squares@.len() == n && side_ok(arr.shape, arr.side),
            !ok ==> !arrangement_ok(arr.shape, n as nat, arr.n as nat, arr.side, arr.squares@),
        decreases arr.squares@.len() - i,
    {
        let p = arr.squares[i];
        if !(in_range(p.cx) && in_range(p.cy) && is_finite(p.theta)) {
            ok = false;
        }
        i = i + 1;
    }
    if ok {
        Ok(())
    } else {
        Err(expected_message(n))
    }
}

/// The bytes that `hex` spells two hex digits at a time (a last odd digit
/// is ignored), or the error for text that is not hex.
pub fn from_hex(hex: &[u8]) -> (r: Result<Vec<u8>, String>)
    ensures
        r matches Ok(v) ==> unhex(hex@) == Some(v@),
        r matches Err(e) ==> unhex(hex@) is None && e@ == bad_hex_text(),
{
    match unhex_all(hex) {
        Some(v) => Ok(v),
        None => Err(owned("This board code is not valid hex")),
    }
}

/// The piece and container shapes a version byte stands for.
fn shapes_of(v: u8) -> (r: Option<(Shape, Shape)>)
    ensures
        r == version_shapes(v),
{
    if v == VERSION {
        Some((Shape::Square, Shape::Square))
    } else if v < 16 {
        match Shape::from_sides(v) {
            Some(s) => {
                if s.is_square() {
                    None
                } else {
                    Some((s, Shape::Square))
                }
            },
            None => None,
        }
    } else {
        match (Shape::from_sides(v / 16), Shape::from_sides(v % 16)) {
            (Some(c), Some(s)) => {
                if c.is_square() {
                    None
                } else {
                    Some((s, c))
                }
            },
            _ => None,
        }
    }
}

/// The piece and container shapes and the glue count a board code declares
/// in its header and trailer header, read before the body is decoded.
fn read_header(h: &[u8], n: u32) -> (r: Result<(Shape, Shape, usize), String>)
    requires
        1 <= n <= MAX_N,
    ensures
        r matches Ok((shape, container, count)) ==> {
            &&& h@.len() >= 2
            &&& unhex(h@.subrange(0, 2)) matches Some(v) && version_shapes(v[0]) == Some((shape, container))
            &&& glue_count(h@, n as nat, shape, container) == Ok::<nat, Seq<char>>(count as nat)
        },
        r matches Err(e) ==> spec_decode(h@, n) == Err::<BoardView, Seq<char>>(e@),
{
    if h.len() < 2 {
        return Err(owned("Missing board version"));
    }
    let version = match unhex_range(h, 0, 2) {
        None => {
            return Err(owned("This board code is not valid hex"));
        },
        Some(v) => {
            assert(v@.len() == 1);
            v[0]
        },
    };
    let (shape, container) = match shapes_of(version) {
        Some(sc) => sc,
        None => {
            return Err(owned("Unsupported board code version"));
        },
    };
    let base = hex_len(n, 0);
    if h.len() == base {
        return Ok((shape, container, 0));
    }
    if h.len() < base + 8 {
        return Err(not_for_message(n));
    }
    let t = match unhex_range(h, base, base + 8) {
        None => {
            return Err(owned("This board code is not valid hex"));
        },
        Some(t) => t,
    };
    assert(t@.len() == 4);
    let expected: u8 = if shape.is_square() && container.is_square() {
        GLUE_VERSION
    } else {
        POLYGON_GLUE_VERSION
    };
    if t[0] != GLUE_TAG || t[1] != expected {
        return Err(owned("This board code has unsupported glue data"));
    }
    let c = get16(&t, 2) as usize;
    if c < 1 || c > MAX_GLUES {
        return Err(owned("This board code has an invalid glue count"));
    }
    if h.len() != hex_len(n, c) {
        return Err(owned("This board code's glue data has the wrong length"));
    }
    Ok((shape, container, c))
}

/// The `n` pieces stored after the header of `bytes`.
pub(crate) fn read_pieces(bytes: &[u8], n: u32) -> (r: Vec<Placement>)
    requires
        n <= MAX_N,
        bytes@.len() >= 11 + 24 * n,
    ensures
        r@ == read_squares(bytes@, n as nat),
{
    let mut squares: Vec<Placement> = Vec::new();
    let mut i: usize = 0;
    while i < n as usize
        invariant
            i <= n <= MAX_N,
            bytes@.len() >= 11 + 24 * n,
            squares@ =~= read_squares(bytes@, n as nat).take(i as int),
        decreases n - i,
    {
        let at = 11 + 24 * i;
        let p = Placement {
            cx: get64(bytes, at),
            cy: get64(bytes, at + 8),
            theta: get64(bytes, at + 16),
        };
        squares.push(p);
        i = i + 1;
    }
    assert(read_squares(bytes@, n as nat).take(n as int) =~= read_squares(bytes@, n as nat));
    squares
}

/// The `count` glues stored in `bytes` from `start`.
fn read_glue_list(bytes: &[u8], start: usize, count: usize, poly: bool) -> (r: Result<
    Vec<Glue>,
    String,
>)
    requires
        count == 0 || start + 4 * count <= bytes@.len(),
    ensures
        r matches Ok(g) ==> read_glues(bytes@, start as int, count as nat, poly) == Ok::<
            Seq<Glue>,
            Seq<char>,
        >(g@),
        r matches Err(e) ==> read_glues(bytes@, start as int, count as nat, poly) == Err::<
            Seq<Glue>,
            Seq<char>,
        >(e@),
{
    let len = bytes.len();
    let mut glues: Vec<Glue> = Vec::new();
    let mut k: usize = 0;
    while k < count
        invariant
            k <= count,
            len == bytes@.len(),
            count == 0 || start + 4 * count <= bytes@.len(),
            forall|j: int|
                0 <= j < 2 * k ==> #[trigger] word_feature(word_at(bytes@, start as int, j), poly) is Some,
            glues@.len() == k,
            forall|j: int|
                0 <= j < k ==> #[trigger] glues@[j] == (Glue {
                    a: word_feature(word_at(bytes@, start as int, 2 * j), poly).unwrap(),
                    b: word_feature(word_at(bytes@, start as int, 2 * j + 1), poly).unwrap(),
                }),
        decreases count - k,
    {
        assert(word_at(bytes@, start as int, 2 * k as int) == read16(bytes@, start + 4 * k));
        assert(word_at(bytes@, start as int, 2 * k + 1) == read16(bytes@, start + 4 * k + 2));
        let a = match feature(get16(bytes, start + 4 * k), poly) {
            Ok(f) => f,
            Err(e) => {
                return Err(e);
            },
        };
        let b = match feature(get16(bytes, start + 4 * k + 2), poly) {
            Ok(f) => f,
            Err(e) => {
                return Err(e);
            },
        };
        glues.push(Glue { a, b });
        k = k + 1;
    }
    assert(glues@ =~= Seq::new(
        count as nat,
        |i: int|
            Glue {
                a: word_feature(word_at(bytes@, start as int, 2 * i), poly).unwrap(),
                b: word_feature(word_at(bytes@, start as int, 2 * i + 1), poly).unwrap(),
            },
    ));
    Ok(glues)
}

/// Decode a board code for `n` pieces. The length is checked before the
/// body is decoded, and the result passes the same limits as a JSON import,
/// and its glue the glue rules of its pieces and container.
#[verifier::rlimit(60)]
pub fn decode(hex: &str, n: u32) -> (r: Result<BoardState, String>)
    ensures
        r matches Ok(s) ==> spec_decode(hex.spec_bytes(), n) == Ok::<BoardView, Seq<char>>(s.view_of())
            && s.arrangement.n == n,
        r matches Err(e) ==> spec_decode(hex.spec_bytes(), n) == Err::<BoardView, Seq<char>>(e@),
{
    if n < 1 || n > MAX_N {
        return Err(owned("n must be between 1 and 100"));
    }
    let h = hex.as_bytes();
    let (shape, container, count) = match read_header(h, n) {
        Ok(x) => x,
        Err(e) => {
            return Err(e);
        },
    };
    let square = shape.is_square() && container.is_square();
    let base = hex_len(n, 0);
    assert(h@.subrange(0, h@.len() as int) =~= h@);
    let bytes = match unhex_range(h, 0, h.len()) {
        None => {
            return Err(owned("This board code is not valid hex"));
        },
        Some(b) => b,
    };
    assert(bytes@.len() == 11 + 24 * n + if count == 0 {
        0
    } else {
        4 + 4 * count
    });
    if get16(&bytes, 1) as u32 != n {
        return Err(not_for_message(n));
    }
    let side = get64(&bytes, 3);
    let squares = read_pieces(&bytes, n);
    let arrangement = Arrangement { container, shape, n, side, squares };
    match check_arrangement(&arrangement, n) {
        Ok(_) => {},
        Err(e) => {
            return Err(e);
        },
    }
    let start = base / 2 + TRAILER_BYTES;
    let glues = match read_glue_list(&bytes, start, count, !square) {
        Ok(g) => g,
        Err(e) => {
            return Err(e);
        },
    };
    match check_in(&glues, n as usize, shape, container) {
        Ok(_) => {},
        Err(e) => {
            return Err(e);
        },
    }
    Ok(BoardState { arrangement, glues })
}

// ------------------------------------------------------------------------
// Laws
// ------------------------------------------------------------------------
/// The piece bytes: 24 per piece, each piece's three values readable at its
/// offset.
#[verifier::rlimit(40)]
pub proof fn lemma_squares_bytes(s: Seq<Placement>)
    ensures
        squares_bytes(s).len() == 24 * s.len(),
        forall|i: int|
            0 <= i < s.len() ==> read64(squares_bytes(s), 24 * i) == (#[trigger] s[i]).cx && read64(
                squares_bytes(s),
                24 * i + 8,
            ) == s[i].cy && read64(squares_bytes(s), 24 * i + 16) == s[i].theta,
    decreases s.len(),
{
    if s.len() > 0 {
        let init = s.drop_last();
        lemma_squares_bytes(init);
        let ib = squares_bytes(init);
        let p = s.last();
        let t = le64(p.cx) + le64(p.cy) + le64(p.theta);
        assert(squares_bytes(s) =~= ib + t);
        lemma_read64(p.cx);
        lemma_read64(p.cy);
        lemma_read64(p.theta);
        lemma_read_concat(le64(p.cx) + le64(p.cy), le64(p.theta), 0);
        lemma_read_concat(le64(p.cx), le64(p.cy), 0);
        lemma_read_concat(le64(p.cx), le64(p.cy) + le64(p.theta), 0);
        assert(le64(p.cx) + le64(p.cy) + le64(p.theta) =~= le64(p.cx) + (le64(p.cy) + le64(p.theta)));
        lemma_read_concat(le64(p.cx), le64(p.cy) + le64(p.theta), 8);
        lemma_read_concat(le64(p.cy), le64(p.theta), 0);
        lemma_read_concat(le64(p.cx) + le64(p.cy), le64(p.theta), 0);
        assert forall|i: int| 0 <= i < s.len() implies read64(squares_bytes(s), 24 * i) == (
        #[trigger] s[i]).cx && read64(squares_bytes(s), 24 * i + 8) == s[i].cy && read64(
            squares_bytes(s),
            24 * i + 16,
        ) == s[i].theta by {
            if i < s.len() - 1 {
                assert(s[i] == init[i]);
                lemma_read_concat(ib, t, 24 * i);
                lemma_read_concat(ib, t, 24 * i + 8);
                lemma_read_concat(ib, t, 24 * i + 16);
            } else {
                lemma_read_concat(ib, t, 0);
                lemma_read_concat(ib, t, 8);
                lemma_read_concat(ib, t, 16);
            }
        }
    }
}

/// The glue bytes: four per glue, each feature's word readable at its
/// offset.
pub proof fn lemma_glues_bytes(g: Seq<Glue>, poly: bool)
    ensures
        glues_bytes(g, poly).len() == 4 * g.len(),
        forall|i: int|
            0 <= i < g.len() ==> read16(glues_bytes(g, poly), 4 * i) == feature_word(
                (#[trigger] g[i]).a,
                poly,
            ) && read16(glues_bytes(g, poly), 4 * i + 2) == feature_word(g[i].b, poly),
    decreases g.len(),
{
    if g.len() > 0 {
        let init = g.drop_last();
        lemma_glues_bytes(init, poly);
        let ib = glues_bytes(init, poly);
        let last = g.last();
        let wa = feature_word(last.a, poly);
        let wb = feature_word(last.b, poly);
        let t = le16(wa) + le16(wb);
        assert(glues_bytes(g, poly) =~= ib + t);
        lemma_read16(wa);
        lemma_read16(wb);
        lemma_read_concat(le16(wa), le16(wb), 0);
        assert forall|i: int| 0 <= i < g.len() implies read16(glues_bytes(g, poly), 4 * i)
            == feature_word((#[trigger] g[i]).a, poly) && read16(glues_bytes(g, poly), 4 * i + 2)
            == feature_word(g[i].b, poly) by {
            if i < g.len() - 1 {
                assert(g[i] == init[i]);
                lemma_read_concat(ib, t, 4 * i);
                lemma_read_concat(ib, t, 4 * i + 2);
            } else {
                lemma_read_concat(ib, t, 0);
                lemma_read_concat(ib, t, 2);
            }
        }
    }
}

/// A feature word packs kind, index and piece without loss.
proof fn lemma_word_fields(kind: u16, idx: u16, sq: u16, poly: bool)
    requires
        kind < 4,
        sq < 128,
        poly ==> idx < 8,
        !poly ==> idx < 4,
    ensures
        ({
            let shift: u16 = if poly {
                5
            } else {
                4
            };
            let top: u16 = if poly {
                12
            } else {
                11
            };
            let mask: u16 = if poly {
                7
            } else {
                3
            };
            let w = (kind | (idx << 2u16) | (sq << shift)) as u16;
            &&& w >> top == 0
            &&& w & 3 == kind
            &&& (w >> 2u16) & mask == idx
            &&& w >> shift == sq
        }),
{
    if poly {
        assert({
            let w = (kind | (idx << 2u16) | (sq << 5u16)) as u16;
            &&& w >> 12u16 == 0
            &&& w & 3 == kind
            &&& (w >> 2u16) & 7 == idx
            &&& w >> 5u16 == sq
        }) by (bit_vector)
            requires
                kind < 4,
                sq < 128,
                idx < 8,
        ;
    } else {
        assert({
            let w = (kind | (idx << 2u16) | (sq << 4u16)) as u16;
            &&& w >> 11u16 == 0
            &&& w & 3 == kind
            &&& (w >> 2u16) & 3 == idx
            &&& w >> 4u16 == sq
        }) by (bit_vector)
            requires
                kind < 4,
                sq < 128,
                idx < 4,
        ;
    }
}

/// A valid feature reads back from its word.
pub proof fn lemma_word_feature(f: Feature, n: nat, shape: Shape, container: Shape)
    requires
        crate::glue::spec_valid(f, n, spec_sides(shape), spec_sides(container)),
        n <= 128,
    ensures
        word_feature(feature_word(f, wide(shape, container)), wide(shape, container)) == Some(f),
{
    let poly = wide(shape, container);
    match f {
        Feature::Edge { square, edge } => {
            lemma_word_fields(0, edge as u16, square as u16, poly);
        },
        Feature::Corner { square, corner } => {
            lemma_word_fields(1, corner as u16, square as u16, poly);
        },
        Feature::Midpoint { square, edge } => {
            lemma_word_fields(2, edge as u16, square as u16, poly);
        },
        Feature::Wall(w) => {
            lemma_word_fields(3, w as u16, 0, poly);
        },
    }
}

/// The header and pieces of an encoded board read back as written.
#[verifier::rlimit(40)]
pub(crate) proof fn lemma_body(shape: Shape, container: Shape, n: u32, side: u64, sq: Seq<Placement>, g: Seq<Glue>)
    requires
        sq.len() == n,
        n <= MAX_N,
    ensures
        ({
            let bytes = board_bytes(shape, container, n, side, sq, g);
            &&& bytes.len() == 11 + 24 * n + trailer_bytes(shape, container, g).len()
            &&& bytes[0] == version_byte(shape, container)
            &&& read16(bytes, 1) == n
            &&& read64(bytes, 3) == side
            &&& read_squares(bytes, n as nat) == sq
        }),
{
    let bytes = board_bytes(shape, container, n, side, sq, g);
    lemma_squares_bytes(sq);
    let head = seq![version_byte(shape, container)] + le16(n as u16) + le64(side);
    let body = head + squares_bytes(sq);
    let tr = trailer_bytes(shape, container, g);
    assert(bytes =~= body + tr);
    assert(head.len() == 11);
    lemma_read16(n as u16);
    lemma_read_concat(seq![version_byte(shape, container)], le16(n as u16), 0);
    lemma_read_concat(seq![version_byte(shape, container)] + le16(n as u16), le64(side), 1);
    lemma_read_concat(head, squares_bytes(sq), 1);
    lemma_read_concat(body, tr, 1);
    lemma_read64(side);
    lemma_read_concat(seq![version_byte(shape, container)] + le16(n as u16), le64(side), 0);
    lemma_read_concat(head, squares_bytes(sq), 3);
    lemma_read_concat(body, tr, 3);
    assert forall|i: int| 0 <= i < n implies #[trigger] read_squares(bytes, n as nat)[i] == sq[i] by {
        lemma_read_concat(head, squares_bytes(sq), 24 * i);
        lemma_read_concat(head, squares_bytes(sq), 24 * i + 8);
        lemma_read_concat(head, squares_bytes(sq), 24 * i + 16);
        lemma_read_concat(body, tr, 11 + 24 * i);
        lemma_read_concat(body, tr, 11 + 24 * i + 8);
        lemma_read_concat(body, tr, 11 + 24 * i + 16);
    }
    assert(read_squares(bytes, n as nat) =~= sq);
}

/// The trailer header of an encoded board declares its glue count.
#[verifier::rlimit(40)]
proof fn lemma_trailer_count(shape: Shape, container: Shape, n: u32, side: u64, sq: Seq<Placement>, g: Seq<Glue>, h: Seq<u8>)
    requires
        sq.len() == n,
        1 <= n <= MAX_N,
        h == encode_utf8(hex_chars(board_bytes(shape, container, n, side, sq, g))),
        g.len() <= MAX_GLUES,
    ensures
        glue_count(h, n as nat, shape, container) == Ok::<nat, Seq<char>>(g.len()),
{
    let poly = wide(shape, container);
    let bytes = board_bytes(shape, container, n, side, sq, g);
    lemma_unhex_hex(bytes, h);
    lemma_squares_bytes(sq);
    lemma_glues_bytes(g, poly);
    let head = seq![version_byte(shape, container)] + le16(n as u16) + le64(side);
    let body = head + squares_bytes(sq);
    let tr = trailer_bytes(shape, container, g);
    assert(bytes =~= body + tr);
    assert(body.len() == 11 + 24 * n);
    let base = spec_hex_len(n as nat, 0) as int;
    if g.len() == 0 {
        assert(h.len() == base);
    } else {
        let c = g.len();
        let th = seq![71u8, trailer_version(shape, container)] + le16(c as u16);
        assert(tr =~= th + glues_bytes(g, poly));
        assert(h.len() == spec_hex_len(n as nat, c));
        lemma_unhex_part(h, bytes, base / 2, base / 2 + 4);
        let t = bytes.subrange(base / 2, base / 2 + 4);
        assert(t =~= th);
        lemma_read16(c as u16);
        lemma_read_concat(seq![71u8, trailer_version(shape, container)], le16(c as u16), 0);
        assert(read16(t, 2) == c);
        assert(h.subrange(base, base + 8) == h.subrange(2 * (base / 2), 2 * (base / 2 + 4)));
    }
}

/// The glue words of an encoded board read back as its glues.
#[verifier::rlimit(40)]
proof fn lemma_trailer_glues(shape: Shape, container: Shape, n: u32, side: u64, sq: Seq<Placement>, g: Seq<Glue>)
    requires
        sq.len() == n,
        1 <= n <= MAX_N,
        spec_check_in(g, n as nat, shape, container) is Ok,
    ensures
        g.len() <= MAX_GLUES,
        read_glues(
            board_bytes(shape, container, n, side, sq, g),
            (spec_hex_len(n as nat, 0) / 2 + 4) as int,
            g.len(),
            wide(shape, container),
        ) == Ok::<Seq<Glue>, Seq<char>>(g),
{
    crate::glue::lemma_accepted_glues_valid(g, n as nat, spec_sides(shape), spec_sides(container), MAX_GLUES as nat);
    let poly = wide(shape, container);
    let bytes = board_bytes(shape, container, n, side, sq, g);
    lemma_squares_bytes(sq);
    lemma_glues_bytes(g, poly);
    let head = seq![version_byte(shape, container)] + le16(n as u16) + le64(side);
    let body = head + squares_bytes(sq);
    let tr = trailer_bytes(shape, container, g);
    assert(bytes =~= body + tr);
    assert(body.len() == 11 + 24 * n);
    let start = (spec_hex_len(n as nat, 0) / 2 + 4) as int;
    let c = g.len();
    if c > 0 {
        let th = seq![71u8, trailer_version(shape, container)] + le16(c as u16);
        assert(tr =~= th + glues_bytes(g, poly));
        assert forall|k: int| 0 <= k < 2 * c implies #[trigger] word_feature(
            word_at(bytes, start, k),
            poly,
        ) == Some(if k % 2 == 0 {
            g[k / 2].a
        } else {
            g[k / 2].b
        }) by {
            let i = k / 2;
            assert(crate::glue::glue_ok(g[i], n as nat, spec_sides(shape), spec_sides(container)));
            lemma_word_feature(g[i].a, n as nat, shape, container);
            lemma_word_feature(g[i].b, n as nat, shape, container);
            lemma_read_concat(th, glues_bytes(g, poly), 4 * i);
            lemma_read_concat(th, glues_bytes(g, poly), 4 * i + 2);
            lemma_read_concat(body, tr, 4 + 4 * i);
            lemma_read_concat(body, tr, 4 + 4 * i + 2);
        }
        assert forall|k: int| 0 <= k < 2 * c implies #[trigger] word_feature(
            word_at(bytes, start, k),
            poly,
        ) is Some by {
            assert(word_feature(word_at(bytes, start, k), poly) == Some(if k % 2 == 0 {
                g[k / 2].a
            } else {
                g[k / 2].b
            }));
        }
    }
    let parsed = Seq::new(
        c,
        |i: int|
            Glue {
                a: word_feature(word_at(bytes, start, 2 * i), poly).unwrap(),
                b: word_feature(word_at(bytes, start, 2 * i + 1), poly).unwrap(),
            },
    );
    assert forall|i: int| 0 <= i < c implies #[trigger] parsed[i] == g[i] by {
        assert(word_feature(word_at(bytes, start, 2 * i), poly) == Some(g[i].a));
        assert(word_feature(word_at(bytes, start, 2 * i + 1), poly) == Some(g[i].b));
    }
    assert(parsed =~= g);
}

/// `spec_decode` accepts a code once each of its checks is known to pass.
proof fn lemma_decode_accepts(
    h: Seq<u8>,
    n: u32,
    v: Seq<u8>,
    shape: Shape,
    container: Shape,
    count: nat,
    bytes: Seq<u8>,
    glues: Seq<Glue>,
)
    requires
        1 <= n <= MAX_N,
        h.len() >= 2,
        unhex(h.subrange(0, 2)) == Some(v),
        version_shapes(v[0]) == Some((shape, container)),
        glue_count(h, n as nat, shape, container) == Ok::<nat, Seq<char>>(count),
        unhex(h) == Some(bytes),
        read16(bytes, 1) == n,
        arrangement_ok(shape, n as nat, n as nat, read64(bytes, 3), read_squares(bytes, n as nat)),
        read_glues(bytes, (spec_hex_len(n as nat, 0) / 2 + 4) as int, count, wide(shape, container))
            == Ok::<Seq<Glue>, Seq<char>>(glues),
        spec_check_in(glues, n as nat, shape, container) is Ok,
    ensures
        spec_decode(h, n) == Ok::<BoardView, Seq<char>>(
            (shape, container, read64(bytes, 3), read_squares(bytes, n as nat), glues),
        ),
{
}

/// Decoding a board code gives back the board it was encoded from, bit for
/// bit, in every container: for every arrangement within the loading
/// limits and every glue set the glue rules of its pieces and container
/// accept.
pub proof fn law_decode_encode(a: Arrangement, g: Seq<Glue>)
    requires
        arrangement_ok(a.shape, a.n as nat, a.n as nat, a.side, a.squares@),
        spec_check_in(g, a.n as nat, a.shape, a.container) is Ok,
    ensures
        spec_decode(encode_utf8(spec_encode(a, g)), a.n) == Ok::<BoardView, Seq<char>>(
            (a.shape, a.container, a.side, a.squares@, g),
        ),
{
    let n = a.n;
    let shape = a.shape;
    let container = a.container;
    let sq = a.squares@;
    let bytes = board_bytes(shape, container, n, a.side, sq, g);
    let h = encode_utf8(spec_encode(a, g));
    lemma_unhex_hex(bytes, h);
    lemma_body(shape, container, n, a.side, sq, g);
    lemma_trailer_glues(shape, container, n, a.side, sq, g);
    lemma_trailer_count(shape, container, n, a.side, sq, g, h);
    lemma_unhex_part(h, bytes, 0, 1);
    let v = bytes.subrange(0, 1);
    assert(v[0] == version_byte(shape, container));
    lemma_version_byte_reads_back(shape, container);
    lemma_decode_accepts(h, n, v, shape, container, g.len(), bytes, g);
}

/// A word that names a feature is that feature's word.
proof fn lemma_feature_word_round_trip(w: u16, poly: bool)
    requires
        word_feature(w, poly) is Some,
    ensures
        feature_word(word_feature(w, poly).unwrap(), poly) == w,
{
    let f = word_feature(w, poly).unwrap();
    if poly {
        let idx = ((w >> 2u16) & 7u16) as u8;
        let sq = (w >> 5u16) as usize;
        assert(w >> 12u16 == 0);
        if w & 3 == 0 {
            assert(f == Feature::Edge { square: sq, edge: idx });
            assert(((0u16 | ((idx as u16) << 2u16) | ((sq as u16) << 5u16)) as u16) == w) by (bit_vector)
                requires
                    w >> 12u16 == 0,
                    w & 3 == 0,
                    idx == ((w >> 2u16) & 7u16) as u8,
                    sq == (w >> 5u16) as usize,
            ;
        } else if w & 3 == 1 {
            assert(f == Feature::Corner { square: sq, corner: idx });
            assert(((1u16 | ((idx as u16) << 2u16) | ((sq as u16) << 5u16)) as u16) == w) by (bit_vector)
                requires
                    w >> 12u16 == 0,
                    w & 3 == 1,
                    idx == ((w >> 2u16) & 7u16) as u8,
                    sq == (w >> 5u16) as usize,
            ;
        } else if w & 3 == 2 {
            assert(f == Feature::Midpoint { square: sq, edge: idx });
            assert(((2u16 | ((idx as u16) << 2u16) | ((sq as u16) << 5u16)) as u16) == w) by (bit_vector)
                requires
                    w >> 12u16 == 0,
                    w & 3 == 2,
                    idx == ((w >> 2u16) & 7u16) as u8,
                    sq == (w >> 5u16) as usize,
            ;
        } else {
            assert(f == Feature::Wall(idx));
            assert(sq == 0);
            assert(((3u16 | ((idx as u16) << 2u16) | (0u16 << 5u16)) as u16) == w) by (bit_vector)
                requires
                    w >> 12u16 == 0,
                    w & 3 != 0,
                    w & 3 != 1,
                    w & 3 != 2,
                    idx == ((w >> 2u16) & 7u16) as u8,
                    (w >> 5u16) as usize == 0,
            ;
        }
    } else {
        let idx = ((w >> 2u16) & 3u16) as u8;
        let sq = (w >> 4u16) as usize;
        assert(w >> 11u16 == 0);
        if w & 3 == 0 {
            assert(f == Feature::Edge { square: sq, edge: idx });
            assert(((0u16 | ((idx as u16) << 2u16) | ((sq as u16) << 4u16)) as u16) == w) by (bit_vector)
                requires
                    w >> 11u16 == 0,
                    w & 3 == 0,
                    idx == ((w >> 2u16) & 3u16) as u8,
                    sq == (w >> 4u16) as usize,
            ;
        } else if w & 3 == 1 {
            assert(f == Feature::Corner { square: sq, corner: idx });
            assert(((1u16 | ((idx as u16) << 2u16) | ((sq as u16) << 4u16)) as u16) == w) by (bit_vector)
                requires
                    w >> 11u16 == 0,
                    w & 3 == 1,
                    idx == ((w >> 2u16) & 3u16) as u8,
                    sq == (w >> 4u16) as usize,
            ;
        } else if w & 3 == 2 {
            assert(f == Feature::Midpoint { square: sq, edge: idx });
            assert(((2u16 | ((idx as u16) << 2u16) | ((sq as u16) << 4u16)) as u16) == w) by (bit_vector)
                requires
                    w >> 11u16 == 0,
                    w & 3 == 2,
                    idx == ((w >> 2u16) & 3u16) as u8,
                    sq == (w >> 4u16) as usize,
            ;
        } else {
            assert(f == Feature::Wall(idx));
            assert(sq == 0);
            assert(((3u16 | ((idx as u16) << 2u16) | (0u16 << 4u16)) as u16) == w) by (bit_vector)
                requires
                    w >> 11u16 == 0,
                    w & 3 != 0,
                    w & 3 != 1,
                    w & 3 != 2,
                    idx == ((w >> 2u16) & 3u16) as u8,
                    (w >> 4u16) as usize == 0,
            ;
        }
    }
}

/// The version byte of a code names its shapes, and those shapes' version
/// byte is the same byte.
proof fn lemma_version_round_trip(v: u8)
    requires
        version_shapes(v) is Some,
    ensures
        version_byte(version_shapes(v).unwrap().0, version_shapes(v).unwrap().1) == v,
{
}

/// Every game's version byte names that game.
proof fn lemma_version_byte_reads_back(shape: Shape, container: Shape)
    ensures
        version_shapes(version_byte(shape, container)) == Some((shape, container)),
{
}

/// Where a code that decodes and the encoding of its board agree: the
/// header and the pieces.
#[verifier::rlimit(40)]
pub(crate) proof fn lemma_canonical_body(bytes: Seq<u8>, shape: Shape, container: Shape, n: u32, g: Seq<Glue>)
    requires
        1 <= n <= MAX_N,
        bytes.len() >= 11 + 24 * n,
        version_shapes(bytes[0]) == Some((shape, container)),
        read16(bytes, 1) == n,
    ensures
        ({
            let b = board_bytes(shape, container, n, read64(bytes, 3), read_squares(bytes, n as nat), g);
            forall|i: int| 0 <= i < 11 + 24 * n ==> bytes[i] == b[i]
        }),
{
    let side = read64(bytes, 3);
    let sq = read_squares(bytes, n as nat);
    let b = board_bytes(shape, container, n, side, sq, g);
    lemma_body(shape, container, n, side, sq, g);
    lemma_version_round_trip(bytes[0]);
    lemma_read16_determines(bytes, b, 1);
    lemma_u64s_agree(bytes, b, 3, 1);
    assert forall|k: int| 0 <= k < 3 * n implies #[trigger] read64(bytes, 11 + 8 * k) == read64(
        b,
        11 + 8 * k,
    ) by {
        let j = k / 3;
        let f = k % 3;
        assert(read_squares(b, n as nat)[j] == sq[j]);
        assert(11 + 8 * k == 11 + 24 * j + 8 * f);
    }
    lemma_u64s_agree(bytes, b, 11, (3 * n) as nat);
    assert forall|i: int| 0 <= i < 11 + 24 * n implies bytes[i] == b[i] by {
        if i >= 3 && i < 11 {
            assert(3 <= i < 3 + 8 * 1);
        }
    }
}

/// Where a code that decodes and the encoding of its board agree: the
/// glue trailer.
#[verifier::rlimit(40)]
proof fn lemma_canonical_trailer(bytes: Seq<u8>, shape: Shape, container: Shape, n: u32, body: Seq<u8>, count: nat, g: Seq<Glue>)
    requires
        1 <= n <= MAX_N,
        body.len() == 11 + 24 * n,
        1 <= count <= MAX_GLUES,
        bytes.len() == 11 + 24 * n + 4 + 4 * count,
        bytes[11 + 24 * n] == 71,
        bytes[11 + 24 * n + 1] == trailer_version(shape, container),
        read16(bytes, 11 + 24 * n + 2) == count,
        read_glues(bytes, 11 + 24 * n + 4, count, wide(shape, container)) == Ok::<Seq<Glue>, Seq<char>>(g),
    ensures
        ({
            let b = body + trailer_bytes(shape, container, g);
            &&& b.len() == bytes.len()
            &&& forall|i: int| 11 + 24 * n <= i < bytes.len() ==> bytes[i] == b[i]
        }),
{
    let poly = wide(shape, container);
    let start = 11 + 24 * n;
    let tr = trailer_bytes(shape, container, g);
    let b = body + tr;
    let th = seq![71u8, trailer_version(shape, container)] + le16(count as u16);
    lemma_glues_bytes(g, poly);
    assert(tr =~= th + glues_bytes(g, poly));
    lemma_read16(count as u16);
    lemma_read_concat(seq![71u8, trailer_version(shape, container)], le16(count as u16), 0);
    lemma_read_concat(th, glues_bytes(g, poly), 2);
    lemma_read_concat(body, tr, 2);
    assert(read16(b, start + 2) == count);
    lemma_read16_determines(bytes, b, start + 2);
    assert(b[start] == 71 && b[start + 1] == trailer_version(shape, container));
    assert forall|k: int| 0 <= k < 2 * count implies #[trigger] read16(bytes, start + 4 + 2 * k) == read16(
        b,
        start + 4 + 2 * k,
    ) by {
        let i = k / 2;
        let w = word_at(bytes, start + 4, k);
        assert(word_feature(w, poly) is Some);
        lemma_feature_word_round_trip(w, poly);
        lemma_read_concat(th, glues_bytes(g, poly), 4 * i);
        lemma_read_concat(th, glues_bytes(g, poly), 4 * i + 2);
        lemma_read_concat(body, tr, 4 + 4 * i);
        lemma_read_concat(body, tr, 4 + 4 * i + 2);
        if k % 2 == 0 {
            assert(g[i].a == word_feature(word_at(bytes, start + 4, 2 * i), poly).unwrap());
            assert(2 * i == k);
        } else {
            assert(g[i].b == word_feature(word_at(bytes, start + 4, 2 * i + 1), poly).unwrap());
            assert(2 * i + 1 == k);
        }
    }
    lemma_words_agree(bytes, b, start + 4, 2 * count);
}

/// What a code that decodes is made of: its bytes, its glue count, and
/// where each part of the result was read.
#[verifier::rlimit(40)]
proof fn lemma_decode_parts(h: Seq<u8>, n: u32) -> (r: (Seq<u8>, nat))
    requires
        spec_decode(h, n) is Ok,
    ensures
        ({
            let (bytes, count) = r;
            let (shape, container, side, squares, glues) = spec_decode(h, n)->Ok_0;
            &&& 1 <= n <= MAX_N
            &&& unhex(h) == Some(bytes)
            &&& version_shapes(bytes[0]) == Some((shape, container))
            &&& read16(bytes, 1) == n
            &&& side == read64(bytes, 3)
            &&& squares == read_squares(bytes, n as nat)
            &&& glue_count(h, n as nat, shape, container) == Ok::<nat, Seq<char>>(count)
            &&& read_glues(bytes, 11 + 24 * n + 4, count, wide(shape, container)) == Ok::<
                Seq<Glue>,
                Seq<char>,
            >(glues)
        }),
{
    let bytes = unhex(h).unwrap();
    let v = unhex(h.subrange(0, 2)).unwrap();
    let (shape, container) = version_shapes(v[0]).unwrap();
    let count = glue_count(h, n as nat, shape, container)->Ok_0;
    lemma_unhex_len(h);
    lemma_unhex_part(h, bytes, 0, 1);
    assert(bytes[0] == v[0]);
    (bytes, count)
}

/// What the glue count of a code says about its bytes: none beyond the
/// pieces without glue, else a trailer header declaring the count.
#[verifier::rlimit(40)]
proof fn lemma_count_parts(h: Seq<u8>, n: u32, shape: Shape, container: Shape, count: nat, bytes: Seq<u8>)
    requires
        1 <= n <= MAX_N,
        unhex(h) == Some(bytes),
        glue_count(h, n as nat, shape, container) == Ok::<nat, Seq<char>>(count),
    ensures
        count <= MAX_GLUES,
        count == 0 ==> bytes.len() == 11 + 24 * n,
        count > 0 ==> bytes.len() == 11 + 24 * n + 4 + 4 * count && bytes[11 + 24 * n] == 71
            && bytes[11 + 24 * n + 1] == trailer_version(shape, container) && read16(bytes, 11 + 24 * n + 2)
            == count,
{
    lemma_unhex_len(h);
    let base = spec_hex_len(n as nat, 0) as int;
    if count > 0 {
        let t = unhex(h.subrange(base, base + 8)).unwrap();
        lemma_unhex_part(h, bytes, base / 2, base / 2 + 4);
        assert(h.subrange(base, base + 8) == h.subrange(2 * (base / 2), 2 * (base / 2 + 4)));
        assert(t =~= bytes.subrange(base / 2, base / 2 + 4));
        assert(t[0] == bytes[base / 2] && t[1] == bytes[base / 2 + 1]);
        assert(t[2] == bytes[base / 2 + 2] && t[3] == bytes[base / 2 + 3]);
    }
}

/// The bytes of a code whose parts were read as `shape`, `side`,
/// `squares` and `glues` are the bytes of that board.
#[verifier::rlimit(40)]
proof fn lemma_canonical_bytes(
    bytes: Seq<u8>,
    n: u32,
    count: nat,
    shape: Shape,
    container: Shape,
    side: u64,
    squares: Seq<Placement>,
    glues: Seq<Glue>,
)
    requires
        1 <= n <= MAX_N,
        version_shapes(bytes[0]) == Some((shape, container)),
        read16(bytes, 1) == n,
        side == read64(bytes, 3),
        squares == read_squares(bytes, n as nat),
        read_glues(bytes, 11 + 24 * n + 4, count, wide(shape, container)) == Ok::<Seq<Glue>, Seq<char>>(
            glues,
        ),
        count <= MAX_GLUES,
        count == 0 ==> bytes.len() == 11 + 24 * n,
        count > 0 ==> bytes.len() == 11 + 24 * n + 4 + 4 * count && bytes[11 + 24 * n] == 71
            && bytes[11 + 24 * n + 1] == trailer_version(shape, container) && read16(bytes, 11 + 24 * n + 2)
            == count,
    ensures
        bytes == board_bytes(shape, container, n, side, squares, glues),
{
    let body = seq![version_byte(shape, container)] + le16(n as u16) + le64(side) + squares_bytes(squares);
    let b = board_bytes(shape, container, n, side, squares, glues);
    lemma_squares_bytes(squares);
    assert(b =~= body + trailer_bytes(shape, container, glues));
    lemma_canonical_body(bytes, shape, container, n, glues);
    assert(glues.len() == count);
    if count == 0 {
        assert(trailer_bytes(shape, container, glues) =~= Seq::<u8>::empty());
        assert(bytes =~= b);
    } else {
        lemma_canonical_trailer(bytes, shape, container, n, body, count, glues);
        assert(bytes =~= b);
    }
}

/// Decoding loses nothing: the bytes a code spells are exactly the bytes of
/// the board it decodes to, so encoding that board gives the code back, up
/// to the case of its hex letters.
pub proof fn law_decoded_code_is_canonical(h: Seq<u8>, n: u32)
    requires
        spec_decode(h, n) is Ok,
    ensures
        ({
            let (shape, container, side, squares, glues) = spec_decode(h, n)->Ok_0;
            unhex(h) == Some(board_bytes(shape, container, n, side, squares, glues))
        }),
{
    let (shape, container, side, squares, glues) = spec_decode(h, n)->Ok_0;
    let (bytes, count) = lemma_decode_parts(h, n);
    lemma_count_parts(h, n, shape, container, count, bytes);
    lemma_canonical_bytes(bytes, n, count, shape, container, side, squares, glues);
}

/// A decoded board passes the same limits as a JSON import, and its glue
/// passes the glue rules of its pieces and container; in a container of at
/// most four walls, with no more glue than the play engine holds, the
/// engine's glue validation accepts it too.
pub proof fn law_decoded_board_passes_the_limits(h: Seq<u8>, n: u32)
    requires
        spec_decode(h, n) is Ok,
    ensures
        ({
            let (shape, container, side, squares, glues) = spec_decode(h, n)->Ok_0;
            &&& arrangement_ok(shape, n as nat, n as nat, side, squares)
            &&& spec_check_in(glues, n as nat, shape, container) is Ok
            &&& glues.len() <= crate::physics::MAX_GLUES && spec_sides(container) <= 4
                ==> crate::physics::engine_check(glues, n as nat, shape) is Ok
        }),
{
    let (shape, container, side, squares, glues) = spec_decode(h, n)->Ok_0;
    crate::glue::lemma_check_accepts(glues, n as nat, spec_sides(shape), spec_sides(container), MAX_GLUES as nat);
    if glues.len() <= crate::physics::MAX_GLUES && spec_sides(container) <= 4 {
        lemma_fewer_walls_engine(glues, n as nat, spec_sides(shape), spec_sides(container));
    }
}

/// Glue accepted against `walls <= 4` walls, and within the engine's limit,
/// passes the engine's check on four walls.
proof fn lemma_fewer_walls_engine(glues: Seq<Glue>, n: nat, sides: nat, walls: nat)
    requires
        spec_check_limited(glues, n, sides, walls, MAX_GLUES as nat) is Ok,
        walls <= 4,
        glues.len() <= crate::physics::MAX_GLUES,
    ensures
        spec_check_limited(glues, n, sides, 4, crate::physics::MAX_GLUES as nat) is Ok,
{
    crate::glue::lemma_check_accepts(glues, n, sides, walls, MAX_GLUES as nat);
    crate::glue::lemma_check_accepts(glues, n, sides, 4, crate::physics::MAX_GLUES as nat);
    assert forall|i: int| 0 <= i < glues.len() implies #[trigger] crate::glue::glue_ok(glues[i], n, sides, 4)
        && !crate::glue::duplicate_before(glues, i) by {
        assert(crate::glue::glue_ok(glues[i], n, sides, walls));
    }
}

/// A piece's rotation is accepted exactly when it is a finite `f64`: its
/// exponent field is not all ones. Its sign plays no part: flipping the
/// sign bit of the rotation never changes whether the piece is accepted.
pub proof fn law_finite_rotations_are_accepted(p: Placement)
    ensures
        coord_ok(p.cx) && coord_ok(p.cy) ==> (placement_ok(p) <==> (p.theta >> 52u64) & 0x7ff != 0x7ff),
        placement_ok(p) == placement_ok(Placement { theta: p.theta ^ 0x8000_0000_0000_0000, ..p }),
{
    let b = p.theta;
    assert(((b & 0x7fff_ffff_ffff_ffff) < 0x7ff0_0000_0000_0000) == ((b >> 52u64) & 0x7ff != 0x7ff))
        by (bit_vector);
    assert((b ^ 0x8000_0000_0000_0000) & 0x7fff_ffff_ffff_ffff == b & 0x7fff_ffff_ffff_ffff) by (bit_vector);
}

/// A board whose pieces lie within the coordinate bound and whose
/// rotations are finite, of either sign, encodes to a code that decodes
/// back to it.
pub proof fn law_finite_rotations_decode(a: Arrangement)
    requires
        1 <= a.n <= MAX_N,
        a.squares@.len() == a.n,
        side_ok(a.shape, a.side),
        forall|i: int|
            0 <= i < a.squares@.len() ==> coord_ok(#[trigger] a.squares@[i].cx) && coord_ok(a.squares@[i].cy)
                && (a.squares@[i].theta >> 52u64) & 0x7ff != 0x7ff,
    ensures
        spec_decode(encode_utf8(spec_encode(a, Seq::<Glue>::empty())), a.n) == Ok::<BoardView, Seq<char>>(
            (a.shape, a.container, a.side, a.squares@, Seq::<Glue>::empty()),
        ),
{
    assert forall|i: int| 0 <= i < a.squares@.len() implies placement_ok(#[trigger] a.squares@[i]) by {
        law_finite_rotations_are_accepted(a.squares@[i]);
    }
    crate::glue::lemma_check_accepts(
        Seq::<Glue>::empty(),
        a.n as nat,
        spec_sides(a.shape),
        spec_sides(a.container),
        MAX_GLUES as nat,
    );
    law_decode_encode(a, Seq::<Glue>::empty());
}

} // verus!
