//! The seed sequence of the annealing schedule.
use vstd::prelude::*;
use vstd::wrapping::u64_specs::{wrapping_add, wrapping_mul};

verus! {

/// One SplitMix64 step: the next seed after `x`.
pub open spec fn spec_splitmix(x: u64) -> u64 {
    let a = wrapping_add(x, 0x9E37_79B9_7F4A_7C15);
    let b = wrapping_mul(a ^ (a >> 30u64), 0xBF58_476D_1CE4_E5B9);
    let c = wrapping_mul(b ^ (b >> 27u64), 0x94D0_49BB_1331_11EB);
    c ^ (c >> 31u64)
}

/// One SplitMix64 step: the next seed after `x`.
pub fn splitmix(x: u64) -> (r: u64)
    ensures
        r == spec_splitmix(x),
{
    let mut z = x.wrapping_add(0x9E37_79B9_7F4A_7C15);
    z = (z ^ (z >> 30)).wrapping_mul(0xBF58_476D_1CE4_E5B9);
    z = (z ^ (z >> 27)).wrapping_mul(0x94D0_49BB_1331_11EB);
    z ^ (z >> 31)
}

} // verus!
