//! What the play engine decides without floating point: its glue limits and
//! the glue validation it applies before accepting a new glue set, and the
//! enums it reports.
use vstd::prelude::*;
use crate::glue::{check_limited, lemma_check_accepts, spec_check_limited};
use crate::shape::{spec_sides, Shape};
use crate::text::owned;
pub use crate::glue::{Feature, Glue};

verus! {

/// Most pieces one simulation holds.
pub const MAX_SQUARES: usize = 100;

/// Most glue constraints one simulation holds.
pub const MAX_GLUES: usize = 100;

/// Which simulation backend runs.
#[derive(Clone, Copy, Debug, PartialEq, Eq, Structural)]
pub enum Backend {
    Cpu,
    Gpu,
}

/// Where a settle run stands. `Settled` is a simulation stopping condition,
/// not score certification.
#[derive(Clone, Copy, Debug, PartialEq, Eq, Structural)]
pub enum SettlePhase {
    Idle,
    Running,
    Settled,
    Blocked,
    TimedOut,
}

impl Default for SettlePhase {
    fn default() -> (r: SettlePhase)
        ensures
            r == SettlePhase::Idle,
    {
        SettlePhase::Idle
    }
}

/// The walls the engine takes glue to, in every container: indices 0 to 3.
pub const ENGINE_WALLS: u8 = 4;

/// The glue constraints a simulation holds for its `bodies` pieces of one
/// shape: always a set that passes validation, replaced only as a whole.
pub struct GlueStore {
    bodies: usize,
    shape: Shape,
    glues: Vec<Glue>,
    disposed: bool,
}

/// The validation a glue set must pass for `n` pieces of `shape`: at most
/// [`MAX_GLUES`], valid features (a face of a piece, or one of the walls
/// 0 to 3 whatever the container) on different objects, no pair twice in
/// either order.
pub open spec fn engine_check(glues: Seq<Glue>, n: nat, shape: Shape) -> Result<(), Seq<char>> {
    spec_check_limited(glues, n, spec_sides(shape), ENGINE_WALLS as nat, MAX_GLUES as nat)
}

/// The error for a simulation that was disposed.
pub open spec fn disposed_text() -> Seq<char> {
    "Simulation disposed"@
}

impl GlueStore {
    /// The number of bodies.
    pub closed spec fn bodies(&self) -> nat {
        self.bodies as nat
    }

    /// The piece shape.
    pub closed spec fn piece(&self) -> Shape {
        self.shape
    }

    /// The glue held.
    pub closed spec fn held(&self) -> Seq<Glue> {
        self.glues@
    }

    /// The simulation was disposed.
    pub closed spec fn is_disposed(&self) -> bool {
        self.disposed
    }

    /// What every operation keeps: the glue held passes validation, and a
    /// disposed simulation holds none.
    pub open spec fn inv(&self) -> bool {
        &&& engine_check(self.held(), self.bodies(), self.piece()) is Ok
        &&& self.is_disposed() ==> self.held().len() == 0
    }

    /// No glue, for `bodies` pieces of `shape`.
    pub fn new(bodies: usize, shape: Shape) -> (r: GlueStore)
        ensures
            r.inv(),
            r.bodies() == bodies,
            r.piece() == shape,
            r.held() == Seq::<Glue>::empty(),
            !r.is_disposed(),
    {
        let r = GlueStore { bodies, shape, glues: Vec::new(), disposed: false };
        proof {
            lemma_check_accepts(r.glues@, bodies as nat, spec_sides(shape), ENGINE_WALLS as nat, MAX_GLUES as nat);
        }
        r
    }

    /// Replace all constraints atomically: on success the store holds
    /// exactly `glues`; on failure it is unchanged.
    pub fn set_glues(&mut self, glues: &[Glue]) -> (r: Result<(), String>)
        requires
            old(self).inv(),
        ensures
            final(self).inv(),
            final(self).bodies() == old(self).bodies(),
            final(self).piece() == old(self).piece(),
            final(self).is_disposed() == old(self).is_disposed(),
            r is Ok <==> !old(self).is_disposed() && engine_check(glues@, old(self).bodies(), old(self).piece())
                is Ok,
            r is Ok ==> final(self).held() == glues@,
            r is Err ==> final(self).held() == old(self).held(),
            r matches Err(e) ==> e@ == (if old(self).is_disposed() {
                disposed_text()
            } else {
                engine_check(glues@, old(self).bodies(), old(self).piece())->Err_0
            }),
    {
        if self.disposed {
            return Err(owned("Simulation disposed"));
        }
        match check_limited(glues, self.bodies, self.shape.sides() as u8, ENGINE_WALLS, MAX_GLUES) {
            Ok(()) => {
                let mut copy: Vec<Glue> = Vec::new();
                let mut i: usize = 0;
                while i < glues.len()
                    invariant
                        i <= glues@.len(),
                        copy@ == glues@.take(i as int),
                    decreases glues@.len() - i,
                {
                    copy.push(glues[i]);
                    assert(copy@ =~= glues@.take(i + 1));
                    i = i + 1;
                }
                assert(copy@ =~= glues@);
                self.glues = copy;
                Ok(())
            },
            Err(e) => Err(e),
        }
    }

    /// The glue held.
    pub fn glues(&self) -> (r: Vec<Glue>)
        ensures
            r@ == self.held(),
    {
        self.glues.clone()
    }

    /// Drop all glue, as resetting or loading a scene does.
    pub fn clear(&mut self)
        requires
            old(self).inv(),
        ensures
            final(self).inv(),
            final(self).held() == Seq::<Glue>::empty(),
            final(self).bodies() == old(self).bodies(),
            final(self).piece() == old(self).piece(),
            final(self).is_disposed() == old(self).is_disposed(),
    {
        self.glues = Vec::new();
        proof {
            lemma_check_accepts(
                self.glues@,
                self.bodies as nat,
                spec_sides(self.shape),
                ENGINE_WALLS as nat,
                MAX_GLUES as nat,
            );
        }
    }

    /// Dispose of the simulation: no glue, and none accepted later.
    pub fn dispose(&mut self)
        requires
            old(self).inv(),
        ensures
            final(self).inv(),
            final(self).is_disposed(),
            final(self).held() == Seq::<Glue>::empty(),
            final(self).bodies() == old(self).bodies(),
            final(self).piece() == old(self).piece(),
    {
        self.disposed = true;
        self.glues = Vec::new();
        proof {
            lemma_check_accepts(
                self.glues@,
                self.bodies as nat,
                spec_sides(self.shape),
                ENGINE_WALLS as nat,
                MAX_GLUES as nat,
            );
        }
    }
}

} // verus!
