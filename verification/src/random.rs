//! The calls into the `rand` crate that draw random values.

use rand::rngs::ThreadRng;
use rand::Rng;
use vstd::prelude::*;

verus! {

/// The thread-local generator of the `rand` crate. Nothing is known of its
/// state.
#[verifier::external_type_specification]
#[verifier::external_body]
pub struct ExThreadRng(ThreadRng);

/// `Rng::fill` of the `rand` crate, on an array of sixteen bytes. Every byte
/// is drawn anew, so nothing is promised of what the array holds afterwards.
/// The generator reseeds itself from the operating system now and then, and
/// panics if that fails; no argument brings this about or keeps it away, so it
/// is taken as running out of memory is.
#[verifier::external_body]
pub(crate) fn fill_bytes(rng: &mut ThreadRng, dest: &mut [u8; 16]) {
    rng.fill(dest)
}

/// `Rng::gen_range` of the `rand` crate, on the inclusive range from `low` to
/// `high`. The call panics on an empty range. It also panics if the generator
/// fails to reseed itself from the operating system, which no argument brings
/// about or keeps away: that is taken as running out of memory is. Trusted:
/// the value drawn lies in the range.
#[verifier::external_body]
pub(crate) fn gen_range_inclusive(rng: &mut ThreadRng, low: i64, high: i64) -> (value: i64)
    requires
        low <= high,
    ensures
        low <= value <= high,
{
    rng.gen_range(low..=high)
}

} // verus!
