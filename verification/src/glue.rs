//! Glue constraints between features of a packing: piece edges, corners,
//! edge midpoints, and the container walls.
use vstd::prelude::*;
use vstd::string::*;
use crate::shape::{spec_sides, Shape};
use crate::text::owned;

verus! {

/// Most glue constraints one board may hold.
pub const MAX_GLUES: usize = 4096;

/// A feature of a piece or of the container. Edge and midpoint indices
/// count the piece's faces; for a square, corner bit 0 selects +u
/// (otherwise -u) and bit 1 selects +v (otherwise -v). Walls are left,
/// bottom, right, top for a square container. Piece indices follow body
/// order.
#[derive(Clone, Copy, Debug, PartialEq, Eq, Structural)]
pub enum Feature {
    Edge { square: usize, edge: u8 },
    Corner { square: usize, corner: u8 },
    Midpoint { square: usize, edge: u8 },
    Wall(u8),
}

/// Two features held together.
#[derive(Clone, Copy, Debug, PartialEq, Eq, Structural)]
pub struct Glue {
    pub a: Feature,
    pub b: Feature,
}

/// The piece that `f` belongs to; `None` for a wall.
pub open spec fn spec_square(f: Feature) -> Option<usize> {
    match f {
        Feature::Edge { square, .. } => Some(square),
        Feature::Corner { square, .. } => Some(square),
        Feature::Midpoint { square, .. } => Some(square),
        Feature::Wall(_) => None,
    }
}

/// `f` names an existing feature: a piece below `n` and an index below the
/// piece's `sides`, or a wall below `walls`.
pub open spec fn spec_valid(f: Feature, n: nat, sides: nat, walls: nat) -> bool {
    match f {
        Feature::Edge { square, edge } => square < n && edge < sides,
        Feature::Midpoint { square, edge } => square < n && edge < sides,
        Feature::Corner { square, corner } => square < n && corner < sides,
        Feature::Wall(w) => w < walls,
    }
}

/// `g` joins two valid features of different objects.
pub open spec fn glue_ok(g: Glue, n: nat, sides: nat, walls: nat) -> bool {
    &&& spec_valid(g.a, n, sides, walls)
    &&& spec_valid(g.b, n, sides, walls)
    &&& spec_square(g.a) != spec_square(g.b)
}

/// `g` and `h` glue the same pair, in either order.
pub open spec fn same_pair(g: Glue, h: Glue) -> bool {
    h == g || (h.a == g.b && h.b == g.a)
}

/// Some glue before index `i` glues the same pair as `glues[i]`.
pub open spec fn duplicate_before(glues: Seq<Glue>, i: int) -> bool {
    exists|j: int| 0 <= j < i && same_pair(glues[i], #[trigger] glues[j])
}

pub open spec fn too_many_text() -> Seq<char> {
    seq!['T', 'o', 'o', ' ', 'm', 'a', 'n', 'y', ' ', 'g', 'l', 'u', 'e', ' ', 'c', 'o', 'n', 's', 't', 'r',
        'a', 'i', 'n', 't', 's']
}

pub open spec fn invalid_text() -> Seq<char> {
    seq!['G', 'l', 'u', 'e', ' ', 'r', 'e', 'q', 'u', 'i', 'r', 'e', 's', ' ', 'v', 'a', 'l', 'i', 'd', ' ',
        'f', 'e', 'a', 't', 'u', 'r', 'e', 's', ' ', 'o', 'n', ' ', 'd', 'i', 'f', 'f', 'e', 'r', 'e', 'n',
        't', ' ', 'o', 'b', 'j', 'e', 'c', 't', 's']
}

pub open spec fn duplicate_text() -> Seq<char> {
    seq!['D', 'u', 'p', 'l', 'i', 'c', 'a', 't', 'e', ' ', 'g', 'l', 'u', 'e', ' ', 'c', 'o', 'n', 's', 't',
        'r', 'a', 'i', 'n', 't']
}

/// What is wrong with `glues[i]` on its own or against the glues before it.
pub open spec fn problem_at(glues: Seq<Glue>, i: int, n: nat, sides: nat, walls: nat) -> Option<
    Seq<char>,
> {
    if !glue_ok(glues[i], n, sides, walls) {
        Some(invalid_text())
    } else if duplicate_before(glues, i) {
        Some(duplicate_text())
    } else {
        None
    }
}

/// The first problem among the first `k` glues, in order.
pub open spec fn first_problem(glues: Seq<Glue>, k: int, n: nat, sides: nat, walls: nat) -> Option<
    Seq<char>,
>
    decreases k,
{
    if k <= 0 {
        None
    } else {
        match first_problem(glues, k - 1, n, sides, walls) {
            Some(e) => Some(e),
            None => problem_at(glues, k - 1, n, sides, walls),
        }
    }
}

/// The verdict on a glue set: too many glues, else its first problem.
pub open spec fn spec_check_limited(
    glues: Seq<Glue>,
    n: nat,
    sides: nat,
    walls: nat,
    max: nat,
) -> Result<(), Seq<char>> {
    if glues.len() > max {
        Err(too_many_text())
    } else {
        match first_problem(glues, glues.len() as int, n, sides, walls) {
            Some(e) => Err(e),
            None => Ok(()),
        }
    }
}

/// The verdict of [`check_in`] on `glues` for `n` pieces of `shape` in `container`.
pub open spec fn spec_check_in(glues: Seq<Glue>, n: nat, shape: Shape, container: Shape) -> Result<
    (),
    Seq<char>,
> {
    spec_check_limited(glues, n, spec_sides(shape), spec_sides(container), MAX_GLUES as nat)
}

/// Every glue is valid and none repeats an earlier pair.
pub open spec fn all_ok(glues: Seq<Glue>, n: nat, sides: nat, walls: nat) -> bool {
    forall|i: int|
        0 <= i < glues.len() ==> #[trigger] glue_ok(glues[i], n, sides, walls) && !duplicate_before(
            glues,
            i,
        )
}

/// No problem among the first `k` glues exactly when each of them is fine.
pub proof fn lemma_first_problem(glues: Seq<Glue>, k: int, n: nat, sides: nat, walls: nat)
    requires
        0 <= k <= glues.len(),
    ensures
        first_problem(glues, k, n, sides, walls) is None <==> (forall|i: int|
            0 <= i < k ==> #[trigger] problem_at(glues, i, n, sides, walls) is None),
    decreases k,
{
    if k > 0 {
        lemma_first_problem(glues, k - 1, n, sides, walls);
    }
}

/// Which glue sets the verdict accepts: at most `max`, each valid and
/// none twice in either order.
pub proof fn lemma_check_accepts(glues: Seq<Glue>, n: nat, sides: nat, walls: nat, max: nat)
    ensures
        spec_check_limited(glues, n, sides, walls, max) is Ok <==> glues.len() <= max && all_ok(
            glues,
            n,
            sides,
            walls,
        ),
{
    lemma_first_problem(glues, glues.len() as int, n, sides, walls);
    if glues.len() <= max && first_problem(glues, glues.len() as int, n, sides, walls) is None {
        assert forall|i: int| 0 <= i < glues.len() implies #[trigger] glue_ok(
            glues[i],
            n,
            sides,
            walls,
        ) && !duplicate_before(glues, i) by {
            assert(problem_at(glues, i, n, sides, walls) is None);
        }
    }
    if glues.len() <= max && all_ok(glues, n, sides, walls) {
        assert forall|i: int| 0 <= i < glues.len() implies #[trigger] problem_at(
            glues,
            i,
            n,
            sides,
            walls,
        ) is None by {
            assert(glue_ok(glues[i], n, sides, walls));
        }
    }
}

/// An accepted glue set is within the limit and each glue is valid.
pub proof fn lemma_accepted_glues_valid(glues: Seq<Glue>, n: nat, sides: nat, walls: nat, max: nat)
    requires
        spec_check_limited(glues, n, sides, walls, max) is Ok,
    ensures
        glues.len() <= max,
        forall|i: int| 0 <= i < glues.len() ==> #[trigger] glue_ok(glues[i], n, sides, walls),
{
    lemma_check_accepts(glues, n, sides, walls, max);
    assert(all_ok(glues, n, sides, walls));
    assert forall|i: int| 0 <= i < glues.len() implies #[trigger] glue_ok(glues[i], n, sides, walls) by {
        assert(glue_ok(glues[i], n, sides, walls) && !duplicate_before(glues, i));
    }
}

/// `g` with its two ends swapped.
pub open spec fn swapped(g: Glue) -> Glue {
    Glue { a: g.b, b: g.a }
}

/// `other` takes its glues from `glues` at distinct indices `p`, each as it
/// is or with its ends swapped: a kept subsequence, a reordering, or both.
pub open spec fn rearranges(other: Seq<Glue>, glues: Seq<Glue>, p: Seq<int>) -> bool {
    &&& p.len() == other.len()
    &&& other.len() <= glues.len()
    &&& forall|i: int| 0 <= i < p.len() ==> 0 <= #[trigger] p[i] < glues.len()
    &&& forall|i: int, j: int| 0 <= i < j < p.len() ==> #[trigger] p[i] != #[trigger] p[j]
    &&& forall|i: int|
        0 <= i < other.len() ==> #[trigger] other[i] == glues[p[i]] || other[i] == swapped(glues[p[i]])
}

/// Whether two glues join the same pair does not depend on the order of
/// either's ends, nor on which is named first.
proof fn lemma_same_pair_symmetric(g: Glue, h: Glue)
    ensures
        same_pair(g, h) == same_pair(h, g),
        same_pair(swapped(g), h) == same_pair(g, h),
        same_pair(g, swapped(h)) == same_pair(g, h),
{
}

/// Each glue of a set where all are fine is fine.
proof fn lemma_all_ok_at(glues: Seq<Glue>, n: nat, sides: nat, walls: nat, k: int)
    requires
        all_ok(glues, n, sides, walls),
        0 <= k < glues.len(),
    ensures
        glue_ok(glues[k], n, sides, walls),
        !duplicate_before(glues, k),
{
    assert(glue_ok(glues[k], n, sides, walls) && !duplicate_before(glues, k));
}

/// A glue set stays accepted when glues are dropped, reordered or turned
/// end for end, and when there are more pieces: whatever takes its glues
/// from an accepted set at distinct places is accepted for as many pieces
/// or more.
pub proof fn law_rearranged_glues_stay_accepted(
    glues: Seq<Glue>,
    other: Seq<Glue>,
    p: Seq<int>,
    n: nat,
    m: nat,
    sides: nat,
    walls: nat,
    max: nat,
)
    requires
        spec_check_limited(glues, n, sides, walls, max) is Ok,
        rearranges(other, glues, p),
        n <= m,
    ensures
        spec_check_limited(other, m, sides, walls, max) is Ok,
{
    lemma_check_accepts(glues, n, sides, walls, max);
    lemma_check_accepts(other, m, sides, walls, max);
    assert(all_ok(glues, n, sides, walls));
    assert forall|i: int| 0 <= i < other.len() implies #[trigger] glue_ok(other[i], m, sides, walls)
        && !duplicate_before(other, i) by {
        let pi = p[i];
        assert(0 <= pi < glues.len());
        lemma_all_ok_at(glues, n, sides, walls, pi);
        assert(other[i] == glues[pi] || other[i] == swapped(glues[pi]));
        if duplicate_before(other, i) {
            let k = choose|k: int| 0 <= k < i && same_pair(other[i], #[trigger] other[k]);
            let pk = p[k];
            assert(0 <= pk < glues.len());
            assert(pk != pi);
            assert(other[k] == glues[pk] || other[k] == swapped(glues[pk]));
            lemma_same_pair_symmetric(glues[pi], glues[pk]);
            lemma_same_pair_symmetric(swapped(glues[pi]), glues[pk]);
            lemma_same_pair_symmetric(glues[pi], swapped(glues[pk]));
            lemma_same_pair_symmetric(swapped(glues[pi]), swapped(glues[pk]));
            assert(same_pair(glues[pi], glues[pk]));
            if pk < pi {
                assert(duplicate_before(glues, pi));
            } else {
                assert(same_pair(glues[pk], glues[pi]));
                assert(duplicate_before(glues, pk));
            }
        }
    }
}

/// Reordering a glue set, or turning any of its glues end for end, does not
/// change whether it is accepted.
pub proof fn law_reordered_glues_keep_acceptance(
    glues: Seq<Glue>,
    other: Seq<Glue>,
    p: Seq<int>,
    q: Seq<int>,
    n: nat,
    sides: nat,
    walls: nat,
    max: nat,
)
    requires
        other.len() == glues.len(),
        p.len() == glues.len(),
        q.len() == glues.len(),
        forall|i: int| 0 <= i < p.len() ==> 0 <= #[trigger] p[i] < glues.len() && q[p[i]] == i,
        forall|j: int| 0 <= j < q.len() ==> 0 <= #[trigger] q[j] < glues.len() && p[q[j]] == j,
        forall|i: int|
            0 <= i < other.len() ==> #[trigger] other[i] == glues[p[i]] || other[i] == swapped(glues[p[i]]),
    ensures
        spec_check_limited(other, n, sides, walls, max) is Ok <==> spec_check_limited(
            glues,
            n,
            sides,
            walls,
            max,
        ) is Ok,
{
    assert forall|i: int, j: int| 0 <= i < j < p.len() implies #[trigger] p[i] != #[trigger] p[j] by {
        assert(q[p[i]] == i && q[p[j]] == j);
    }
    assert forall|i: int, j: int| 0 <= i < j < q.len() implies #[trigger] q[i] != #[trigger] q[j] by {
        assert(p[q[i]] == i && p[q[j]] == j);
    }
    assert forall|j: int| 0 <= j < glues.len() implies #[trigger] glues[j] == other[q[j]] || glues[j]
        == swapped(other[q[j]]) by {
        let i = q[j];
        assert(p[i] == j);
        assert(other[i] == glues[p[i]] || other[i] == swapped(glues[p[i]]));
    }
    assert(rearranges(other, glues, p));
    assert(rearranges(glues, other, q));
    if spec_check_limited(glues, n, sides, walls, max) is Ok {
        law_rearranged_glues_stay_accepted(glues, other, p, n, n, sides, walls, max);
    }
    if spec_check_limited(other, n, sides, walls, max) is Ok {
        law_rearranged_glues_stay_accepted(other, glues, q, n, n, sides, walls, max);
    }
}

impl Feature {
    /// The piece this feature belongs to; `None` for a wall.
    pub fn square(self) -> (r: Option<usize>)
        ensures
            r == spec_square(self),
    {
        match self {
            Feature::Edge { square, .. } => Some(square),
            Feature::Corner { square, .. } => Some(square),
            Feature::Midpoint { square, .. } => Some(square),
            Feature::Wall(_) => None,
        }
    }

    /// Whether this names a feature of one of `n` pieces with `sides`
    /// sides, or one of `walls` walls.
    pub fn valid(self, n: usize, sides: u8, walls: u8) -> (r: bool)
        ensures
            r == spec_valid(self, n as nat, sides as nat, walls as nat),
    {
        match self {
            Feature::Edge { square, edge } => square < n && edge < sides,
            Feature::Midpoint { square, edge } => square < n && edge < sides,
            Feature::Corner { square, corner } => square < n && corner < sides,
            Feature::Wall(w) => w < walls,
        }
    }
}

/// Whether some glue in `glues[..i]` glues the same pair as `g`.
fn repeats(glues: &[Glue], i: usize, g: Glue) -> (r: bool)
    requires
        i <= glues@.len(),
    ensures
        r == exists|j: int| 0 <= j < i && same_pair(g, #[trigger] glues@[j]),
{
    let mut j: usize = 0;
    while j < i
        invariant
            i <= glues@.len(),
            j <= i,
            forall|k: int| 0 <= k < j ==> !same_pair(g, #[trigger] glues@[k]),
        decreases i - j,
    {
        let h = glues[j];
        if h == g || (h.a == g.b && h.b == g.a) {
            return true;
        }
        j = j + 1;
    }
    false
}

/// The glue check with the piece side count, wall count and glue limit
/// spelled out.
pub fn check_limited(glues: &[Glue], n: usize, sides: u8, walls: u8, max: usize) -> (r: Result<
    (),
    String,
>)
    ensures
        r matches Ok(_) ==> spec_check_limited(glues@, n as nat, sides as nat, walls as nat, max as nat)
            is Ok,
        r matches Err(e) ==> spec_check_limited(glues@, n as nat, sides as nat, walls as nat, max as nat)
            == Err::<(), Seq<char>>(e@),
{
    let ghost nn = n as nat;
    let ghost ss = sides as nat;
    let ghost ww = walls as nat;
    if glues.len() > max {
        proof {
            reveal_strlit("Too many glue constraints");
            assert("Too many glue constraints"@ =~= too_many_text());
        }
        return Err(owned("Too many glue constraints"));
    }
    let mut i: usize = 0;
    while i < glues.len()
        invariant
            i <= glues@.len(),
            glues@.len() <= max,
            first_problem(glues@, i as int, nn, ss, ww) is None,
            nn == n,
            ss == sides,
            ww == walls,
        decreases glues@.len() - i,
    {
        let g = glues[i];
        if !g.a.valid(n, sides, walls) || !g.b.valid(n, sides, walls) || g.a.square()
            == g.b.square() {
            proof {
                reveal_strlit("Glue requires valid features on different objects");
                assert("Glue requires valid features on different objects"@ =~= invalid_text());
                assert(first_problem(glues@, glues@.len() as int, nn, ss, ww) == Some(invalid_text()))
                    by {
                    lemma_first_problem_stays(glues@, i as int + 1, glues@.len() as int, nn, ss, ww);
                }
            }
            return Err(owned("Glue requires valid features on different objects"));
        }
        if repeats(glues, i, g) {
            proof {
                reveal_strlit("Duplicate glue constraint");
                assert("Duplicate glue constraint"@ =~= duplicate_text());
                assert(duplicate_before(glues@, i as int));
                lemma_first_problem_stays(glues@, i as int + 1, glues@.len() as int, nn, ss, ww);
            }
            return Err(owned("Duplicate glue constraint"));
        }
        proof {
            assert(!duplicate_before(glues@, i as int));
        }
        i = i + 1;
    }
    Ok(())
}

/// Once a problem is found among the first `k` glues, it stays the first
/// problem among any longer prefix.
pub proof fn lemma_first_problem_stays(glues: Seq<Glue>, k: int, m: int, n: nat, sides: nat, walls: nat)
    requires
        0 <= k <= m,
        first_problem(glues, k, n, sides, walls) is Some,
    ensures
        first_problem(glues, m, n, sides, walls) == first_problem(glues, k, n, sides, walls),
    decreases m - k,
{
    if m > k {
        lemma_first_problem_stays(glues, k, m - 1, n, sides, walls);
    }
}

/// Rules every glue set for `n` squares in a square container must meet.
pub fn check(glues: &[Glue], n: usize) -> (r: Result<(), String>)
    ensures
        r matches Ok(_) ==> spec_check_in(glues@, n as nat, Shape::Square, Shape::Square) is Ok,
        r matches Err(e) ==> spec_check_in(glues@, n as nat, Shape::Square, Shape::Square) == Err::<
            (),
            Seq<char>,
        >(e@),
{
    check_for(glues, n, Shape::Square)
}

/// Rules every glue set for `n` pieces of `shape` in a square container must meet.
pub fn check_for(glues: &[Glue], n: usize, shape: Shape) -> (r: Result<(), String>)
    ensures
        r matches Ok(_) ==> spec_check_in(glues@, n as nat, shape, Shape::Square) is Ok,
        r matches Err(e) ==> spec_check_in(glues@, n as nat, shape, Shape::Square) == Err::<
            (),
            Seq<char>,
        >(e@),
{
    check_in(glues, n, shape, Shape::Square)
}

/// Rules every glue set for `n` pieces of `shape` in `container` must meet:
/// at most [`MAX_GLUES`], valid features on different objects, and no pair
/// glued twice in either order.
pub fn check_in(glues: &[Glue], n: usize, shape: Shape, container: Shape) -> (r: Result<
    (),
    String,
>)
    ensures
        r matches Ok(_) ==> spec_check_in(glues@, n as nat, shape, container) is Ok,
        r matches Err(e) ==> spec_check_in(glues@, n as nat, shape, container) == Err::<(), Seq<char>>(
            e@,
        ),
{
    check_limited(glues, n, shape.sides() as u8, container.sides() as u8, MAX_GLUES)
}

} // verus!
