//! The random source of the simulation: a seeded PCG generator, reached
//! through a handful of draws.
//!
//! Nothing here is proved. Each function below makes one call into `rand`,
//! and its contract states only what holds of every value the call can
//! return; the engine is verified for all of them.

use rand::seq::SliceRandom;
use rand::Rng;
use vstd::prelude::*;
use crate::space::Vec2i;

verus! {

/// `rand_pcg`'s 32-bit PCG generator, carried through the engine as an
/// opaque value.
#[verifier::external_type_specification]
#[verifier::external_body]
pub struct ExPcg32(rand_pcg::Lcg64Xsh32);

/// `Rng::gen_range` on `i32`: some value of the half-open range
/// `[low, high)`. The call panics on an empty range, which the precondition
/// rules out.
#[verifier::external_body]
pub(crate) fn gen_range_i32(rng: &mut rand_pcg::Pcg32, low: i32, high: i32) -> (r: i32)
    requires
        low < high,
    ensures
        low <= r < high,
{
    rng.gen_range(low, high)
}

/// `Rng::gen_range` on `usize`: some value of the half-open range
/// `[low, high)`. The call panics on an empty range, which the precondition
/// rules out.
#[verifier::external_body]
pub(crate) fn gen_range_usize(rng: &mut rand_pcg::Pcg32, low: usize, high: usize) -> (r: usize)
    requires
        low < high,
    ensures
        low <= r < high,
{
    rng.gen_range(low, high)
}

/// `Rng::gen` on `u8`: any byte.
#[verifier::external_body]
pub(crate) fn gen_u8(rng: &mut rand_pcg::Pcg32) -> (r: u8) {
    rng.gen::<u8>()
}

/// `Rng::gen` on `i32`: any 32-bit integer.
#[verifier::external_body]
pub(crate) fn gen_i32(rng: &mut rand_pcg::Pcg32) -> (r: i32) {
    rng.gen::<i32>()
}

/// `SliceRandom::choose`: one of the given cells, and nothing exactly when
/// there is none to choose from.
#[verifier::external_body]
pub(crate) fn choose_cell(rng: &mut rand_pcg::Pcg32, cells: &Vec<Vec2i>) -> (r: Option<Vec2i>)
    ensures
        match r {
            Some(cell) => cells@.contains(cell),
            None => cells@.len() == 0,
        },
{
    cells.choose(rng).copied()
}

} // verus!
