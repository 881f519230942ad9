//! Random choices, drawn from `rand`'s standard generator seeded by the
//! operating system.

use vstd::prelude::*;

verus! {

/// `rand`'s standard generator (ChaCha12), carried through as an opaque
/// value.
#[verifier::external_type_specification]
#[verifier::external_body]
pub struct ExStdRng(rand::rngs::StdRng);

/// Calls `rand::SeedableRng::from_rng` for `rand::rngs::StdRng`, seeded from
/// `rand::rngs::OsRng`; an error of the seed source comes back as `None`.
/// Nothing is claimed of when that happens or of the generator.
#[verifier::external_body]
pub(crate) fn seeded_rng() -> Option<rand::rngs::StdRng> {
    rand::SeedableRng::from_rng(rand::rngs::OsRng).ok()
}

/// Calls `rand::Rng::gen_range` on the range `0..upper` with a `StdRng`,
/// which must not be empty: the result lies in that range. Which value comes
/// back is not claimed, nor the generator's state afterwards.
#[verifier::external_body]
pub(crate) fn gen_index(rng: &mut rand::rngs::StdRng, upper: usize) -> (r: usize)
    requires
        upper > 0,
    ensures
        r < upper,
{
    rand::Rng::gen_range(rng, 0..upper)
}

} // verus!
