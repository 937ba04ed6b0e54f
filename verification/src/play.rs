//! Picking glue targets on the play screen: which features exist and which
//! pairs may be glued, and what a board link opened on a game does.
use vstd::prelude::*;
use crate::glue::{
    glue_ok, law_rearranged_glues_stay_accepted, lemma_check_accepts, rearranges, spec_check_in,
    spec_square, spec_valid, swapped, Feature, Glue, MAX_GLUES,
};
use crate::shape::{spec_sides, Shape};
use crate::board::BoardState;
use crate::physics::{engine_check, GlueStore};
use crate::text::owned;

verus! {

/// Corner, midpoint and edge `k` of piece `square`, in that order.
pub open spec fn face_features(square: usize, k: u8) -> Seq<Feature> {
    seq![
        Feature::Corner { square, corner: k },
        Feature::Midpoint { square, edge: k },
        Feature::Edge { square, edge: k },
    ]
}

/// The features of faces `0..k` of piece `square`.
pub open spec fn piece_features(square: usize, k: nat) -> Seq<Feature>
    decreases k,
{
    if k == 0 {
        Seq::empty()
    } else {
        piece_features(square, (k - 1) as nat) + face_features(square, (k - 1) as u8)
    }
}

/// The features of pieces `0..n`, each with `sides` faces.
pub open spec fn pieces_features(n: nat, sides: nat) -> Seq<Feature>
    decreases n,
{
    if n == 0 {
        Seq::empty()
    } else {
        pieces_features((n - 1) as nat, sides) + piece_features((n - 1) as usize, sides)
    }
}

/// Every feature of `n` pieces of `shape` plus the four walls, piece by
/// piece and face by face.
pub open spec fn spec_features(shape: Shape, n: nat) -> Seq<Feature> {
    pieces_features(n, spec_sides(shape)) + seq![
        Feature::Wall(0),
        Feature::Wall(1),
        Feature::Wall(2),
        Feature::Wall(3),
    ]
}

/// Every feature of `n` pieces plus the four walls.
pub fn features(shape: Shape, n: usize) -> (r: Vec<Feature>)
    ensures
        r@ == spec_features(shape, n as nat),
{
    let sides = shape.sides() as u8;
    let mut out: Vec<Feature> = Vec::new();
    let mut square: usize = 0;
    while square < n
        invariant
            square <= n,
            sides == spec_sides(shape),
            out@ == pieces_features(square as nat, sides as nat),
        decreases n - square,
    {
        let ghost before = out@;
        let mut k: u8 = 0;
        while k < sides
            invariant
                k <= sides,
                sides == spec_sides(shape),
                out@ == before + piece_features(square, k as nat),
            decreases sides - k,
        {
            out.push(Feature::Corner { square, corner: k });
            out.push(Feature::Midpoint { square, edge: k });
            out.push(Feature::Edge { square, edge: k });
            assert(out@ =~= before + piece_features(square, (k + 1) as nat));
            k = k + 1;
        }
        assert(out@ =~= pieces_features((square + 1) as nat, sides as nat));
        square = square + 1;
    }
    let mut w: u8 = 0;
    let ghost pieces = out@;
    while w < 4
        invariant
            w <= 4,
            out@ == pieces + Seq::new(w as nat, |i: int| Feature::Wall(i as u8)),
        decreases 4 - w,
    {
        out.push(Feature::Wall(w));
        assert(out@ =~= pieces + Seq::new((w + 1) as nat, |i: int| Feature::Wall(i as u8)));
        w = w + 1;
    }
    assert(out@ =~= spec_features(shape, n as nat));
    out
}

/// Two features can be glued unless they share a piece (or are both walls).
pub fn compatible(a: Feature, b: Feature) -> (r: bool)
    ensures
        r == (spec_square(a) != spec_square(b)),
{
    a.square() != b.square()
}

/// The features of faces `0..k` of piece `square` are valid for `n`
/// pieces of `sides` faces.
proof fn lemma_piece_features_valid(square: usize, k: nat, n: nat, sides: nat)
    requires
        square < n,
        k <= sides <= 255,
    ensures
        piece_features(square, k).len() == 3 * k,
        forall|i: int|
            0 <= i < piece_features(square, k).len() ==> spec_valid(
                #[trigger] piece_features(square, k)[i],
                n,
                sides,
                4,
            ),
    decreases k,
{
    if k > 0 {
        lemma_piece_features_valid(square, (k - 1) as nat, n, sides);
        let prev = piece_features(square, (k - 1) as nat);
        let face = face_features(square, (k - 1) as u8);
        assert forall|i: int| 0 <= i < piece_features(square, k).len() implies spec_valid(
            #[trigger] piece_features(square, k)[i],
            n,
            sides,
            4,
        ) by {
            if i < prev.len() {
                assert(piece_features(square, k)[i] == prev[i]);
            } else {
                assert(piece_features(square, k)[i] == face[i - prev.len()]);
            }
        }
    }
}

/// The features of pieces `0..m` are valid for `n >= m` pieces of `sides`
/// faces.
proof fn lemma_pieces_features_valid(m: nat, n: nat, sides: nat)
    requires
        m <= n <= usize::MAX,
        sides <= 255,
    ensures
        forall|i: int|
            0 <= i < pieces_features(m, sides).len() ==> spec_valid(
                #[trigger] pieces_features(m, sides)[i],
                n,
                sides,
                4,
            ),
    decreases m,
{
    if m > 0 {
        lemma_pieces_features_valid((m - 1) as nat, n, sides);
        lemma_piece_features_valid((m - 1) as usize, sides, n, sides);
        let prev = pieces_features((m - 1) as nat, sides);
        let last = piece_features((m - 1) as usize, sides);
        assert forall|i: int| 0 <= i < pieces_features(m, sides).len() implies spec_valid(
            #[trigger] pieces_features(m, sides)[i],
            n,
            sides,
            4,
        ) by {
            if i < prev.len() {
                assert(pieces_features(m, sides)[i] == prev[i]);
            } else {
                assert(pieces_features(m, sides)[i] == last[i - prev.len()]);
            }
        }
    }
}

/// Every feature offered for `n` pieces of `shape` names an existing
/// feature of that board.
pub proof fn law_features_are_valid(shape: Shape, n: usize)
    ensures
        forall|i: int|
            0 <= i < spec_features(shape, n as nat).len() ==> spec_valid(
                #[trigger] spec_features(shape, n as nat)[i],
                n as nat,
                spec_sides(shape),
                4,
            ),
{
    let pieces = pieces_features(n as nat, spec_sides(shape));
    lemma_pieces_features_valid(n as nat, n as nat, spec_sides(shape));
    assert forall|i: int| 0 <= i < spec_features(shape, n as nat).len() implies spec_valid(
        #[trigger] spec_features(shape, n as nat)[i],
        n as nat,
        spec_sides(shape),
        4,
    ) by {
        if i < pieces.len() {
            assert(spec_features(shape, n as nat)[i] == pieces[i]);
        }
    }
}

/// Any two compatible features the picker offers make a glue that the
/// engine accepts, in every container, and that the validation of a board
/// accepts in every container with at least four walls.
pub proof fn law_compatible_features_glue(shape: Shape, container: Shape, n: usize, f: Feature, g: Feature)
    requires
        spec_features(shape, n as nat).contains(f),
        spec_features(shape, n as nat).contains(g),
        spec_square(f) != spec_square(g),
    ensures
        engine_check(seq![Glue { a: f, b: g }], n as nat, shape) is Ok,
        spec_sides(container) >= 4 ==> spec_check_in(seq![Glue { a: f, b: g }], n as nat, shape, container)
            is Ok,
{
    law_features_are_valid(shape, n);
    let glues = seq![Glue { a: f, b: g }];
    assert(glue_ok(glues[0], n as nat, spec_sides(shape), 4));
    lemma_check_accepts(glues, n as nat, spec_sides(shape), 4, crate::physics::MAX_GLUES as nat);
    if spec_sides(container) >= 4 {
        assert(glue_ok(glues[0], n as nat, spec_sides(shape), spec_sides(container)));
        lemma_check_accepts(glues, n as nat, spec_sides(shape), spec_sides(container), MAX_GLUES as nat);
    }
}

/// What a tap with the glue tool open does.
#[derive(Clone, Copy, Debug, PartialEq, Eq, Structural)]
pub enum TapOutcome {
    /// Glue the first pick to the target under the tap.
    Glue(Glue),
    /// Remove the link with this index.
    Remove(usize),
    /// The target under the tap becomes the first pick.
    Repick(Feature),
    /// Nothing under the tap: the tool closes.
    Cancel,
}

/// What a tap does, given the tool's first pick, the target under the tap
/// that may be glued to it, the link under the tap, and any target under
/// the tap. With a first pick, a compatible target is glued to it; with
/// none, a link under the tap is removed; otherwise a target becomes the
/// first pick, and empty space cancels.
pub open spec fn spec_tap(
    first: Option<Feature>,
    compatible_target: Option<Feature>,
    link: Option<usize>,
    target: Option<Feature>,
) -> TapOutcome {
    match (first, compatible_target) {
        (Some(a), Some(b)) => TapOutcome::Glue(Glue { a, b }),
        _ => match (first, link) {
            (None, Some(i)) => TapOutcome::Remove(i),
            _ => match target {
                Some(f) => TapOutcome::Repick(f),
                None => TapOutcome::Cancel,
            },
        },
    }
}

/// The prompt while the glue tool is open.
pub open spec fn prompt_text(first: Option<Feature>) -> Seq<char> {
    if first is Some {
        "Glue: now tap a target on another square, or a wall. Escape cancels."@
    } else {
        "Glue: tap a corner, midpoint, edge, or wall. Tap a link to remove it."@
    }
}

/// The prompt while the glue tool is open with `first` picked.
pub fn prompt(first: Option<Feature>) -> (r: &'static str)
    ensures
        r@ == prompt_text(first),
{
    if first.is_some() {
        "Glue: now tap a target on another square, or a wall. Escape cancels."
    } else {
        "Glue: tap a corner, midpoint, edge, or wall. Tap a link to remove it."
    }
}

/// What a tap with the glue tool open does.
pub fn tap(
    first: Option<Feature>,
    compatible_target: Option<Feature>,
    link: Option<usize>,
    target: Option<Feature>,
) -> (r: TapOutcome)
    ensures
        r == spec_tap(first, compatible_target, link, target),
{
    if let (Some(a), Some(b)) = (first, compatible_target) {
        return TapOutcome::Glue(Glue { a, b });
    }
    if first.is_none() {
        if let Some(i) = link {
            return TapOutcome::Remove(i);
        }
    }
    match target {
        Some(f) => TapOutcome::Repick(f),
        None => TapOutcome::Cancel,
    }
}

/// What the play screen shows after a tap, and whether the tool stays
/// open.
pub struct TapReport {
    pub status: String,
    pub error: bool,
    /// The tool stays open with this first pick; `None` closes it.
    pub keep_open: Option<Feature>,
}

/// The glue set a glue or removal proposes.
pub open spec fn proposed(held: Seq<Glue>, outcome: TapOutcome) -> Seq<Glue> {
    match outcome {
        TapOutcome::Glue(g) => held.push(g),
        TapOutcome::Remove(i) => held.remove(i as int),
        _ => held,
    }
}

/// The message after a glue set is applied, or why it can't be.
pub open spec fn applied_text(outcome: TapOutcome, result: Result<(), Seq<char>>) -> Seq<char> {
    match result {
        Ok(_) => if outcome is Glue {
            "Glued. Double-tap to add another."@
        } else {
            "Glue removed."@
        },
        Err(e) => "Can't glue that: "@ + e,
    }
}

/// Carry out a tap's outcome on the simulation's glue: a glue or a
/// removal replaces the glue set as a whole when the engine accepts it,
/// and reports either way; a new first pick keeps the tool open; anything
/// else closes it.
pub fn apply_tap(store: &mut GlueStore, outcome: TapOutcome) -> (r: TapReport)
    requires
        old(store).inv(),
        outcome matches TapOutcome::Remove(i) ==> i < old(store).held().len(),
    ensures
        final(store).inv(),
        final(store).bodies() == old(store).bodies(),
        final(store).piece() == old(store).piece(),
        final(store).is_disposed() == old(store).is_disposed(),
        match outcome {
            TapOutcome::Glue(_) | TapOutcome::Remove(_) => {
                let p = proposed(old(store).held(), outcome);
                let result = if old(store).is_disposed() {
                    Err(crate::physics::disposed_text())
                } else {
                    engine_check(p, old(store).bodies(), old(store).piece())
                };
                &&& final(store).held() == (if result is Ok {
                    p
                } else {
                    old(store).held()
                })
                &&& r.status@ == applied_text(outcome, result)
                &&& r.error == result is Err
                &&& r.keep_open is None
            },
            TapOutcome::Repick(f) => final(store).held() == old(store).held() && r.status@ == prompt_text(
                Some(f),
            ) && !r.error && r.keep_open == Some(f),
            TapOutcome::Cancel => final(store).held() == old(store).held() && r.status@
                == "Glue cancelled."@ && !r.error && r.keep_open is None,
        },
{
    match outcome {
        TapOutcome::Glue(_) | TapOutcome::Remove(_) => {
            let mut glues = store.glues();
            match outcome {
                TapOutcome::Glue(g) => glues.push(g),
                TapOutcome::Remove(i) => {
                    glues.remove(i);
                },
                _ => {},
            }
            assert(glues@ == proposed(old(store).held(), outcome));
            match store.set_glues(glues.as_slice()) {
                Ok(()) => TapReport {
                    status: owned(
                        match outcome {
                            TapOutcome::Glue(_) => "Glued. Double-tap to add another.",
                            _ => "Glue removed.",
                        },
                    ),
                    error: false,
                    keep_open: None,
                },
                Err(e) => {
                    let mut status = owned("Can't glue that: ");
                    status.append(e.as_str());
                    TapReport { status, error: true, keep_open: None }
                },
            }
        },
        TapOutcome::Repick(f) => TapReport {
            status: owned(prompt(Some(f))),
            error: false,
            keep_open: Some(f),
        },
        TapOutcome::Cancel => TapReport { status: owned("Glue cancelled."), error: false, keep_open: None },
    }
}

/// Tapping a link removes just that link: from any glue the engine holds,
/// the set without that one link is accepted, so it replaces the old set,
/// keeping every other link in order.
pub proof fn law_tapping_a_link_removes_just_that_link(store: GlueStore, i: usize)
    requires
        store.inv(),
        !store.is_disposed(),
        i < store.held().len(),
    ensures
        engine_check(
            proposed(store.held(), TapOutcome::Remove(i)),
            store.bodies(),
            store.piece(),
        ) is Ok,
        proposed(store.held(), TapOutcome::Remove(i)) == store.held().remove(i as int),
{
    let glues = store.held();
    let r = glues.remove(i as int);
    let p = Seq::new(r.len(), |j: int| if j < i { j } else { j + 1 });
    assert forall|j: int| 0 <= j < r.len() implies #[trigger] r[j] == glues[p[j]] || r[j] == swapped(
        glues[p[j]],
    ) by {}
    assert(rearranges(r, glues, p));
    law_rearranged_glues_stay_accepted(
        glues,
        r,
        p,
        store.bodies(),
        store.bodies(),
        spec_sides(store.piece()),
        crate::physics::ENGINE_WALLS as nat,
        crate::physics::MAX_GLUES as nat,
    );
}

/// What a board link does to a game.
#[derive(Debug)]
pub enum BoardLink {
    /// The board is for this game: load its arrangement, then its glue.
    Load(BoardState),
    /// The link is refused with this message.
    Refuse(String),
}

pub open spec fn other_shape_text() -> Seq<char> {
    "This board uses a different shape. Open its matching shape first."@
}

pub open spec fn board_loaded_text() -> Seq<char> {
    "Board loaded, not yet validated. Settle to check it."@
}

/// A board link opened on a game of `shape` pieces in `container`, given
/// what decoding it gave: the board is loaded only when it is for this
/// game; otherwise the link is refused, naming why.
pub fn board_link(decoded: Result<BoardState, String>, shape: Shape, container: Shape) -> (r: BoardLink)
    ensures
        match decoded {
            Ok(b) => if b.arrangement.shape == shape && b.arrangement.container == container {
                r == BoardLink::Load(b)
            } else {
                r matches BoardLink::Refuse(m) && m@ == other_shape_text()
            },
            Err(e) => r matches BoardLink::Refuse(m) && m@ == "Board link: "@ + e@,
        },
{
    match decoded {
        Ok(b) => {
            if b.arrangement.shape == shape && b.arrangement.container == container {
                BoardLink::Load(b)
            } else {
                BoardLink::Refuse(owned("This board uses a different shape. Open its matching shape first."))
            }
        },
        Err(e) => {
            let mut m = owned("Board link: ");
            m.append(e.as_str());
            BoardLink::Refuse(m)
        },
    }
}

/// The status after a linked board's glue was handed to the engine, and
/// whether it is an error.
pub fn board_glue_status(result: &Result<(), String>) -> (r: (String, bool))
    ensures
        match result {
            Ok(_) => r.0@ == board_loaded_text() && !r.1,
            Err(e) => r.0@ == "Board glue: "@ + e@ && r.1,
        },
{
    match result {
        Ok(_) => (owned("Board loaded, not yet validated. Settle to check it."), false),
        Err(e) => {
            let mut m = owned("Board glue: ");
            m.append(e.as_str());
            (m, true)
        },
    }
}

} // verus!
