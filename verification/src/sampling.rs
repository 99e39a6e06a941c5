//! Random sampling, through the `rand` and `zipf` crates.
//!
//! The simulator draws two kinds of random numbers: the tenant of each
//! arriving request and the size class of each task.  Both come from a
//! deterministic, seeded, non-cryptographic generator so that a run is
//! reproducible.  The calls into the outside crates live here, each
//! behind a small trusted wrapper whose contract states no more than the
//! crates' own documentation promises.

use vstd::prelude::*;

use rand::distributions::Distribution;
use rand::rngs::SmallRng;
use rand::Rng;
use rand::SeedableRng;

verus! {

#[verifier::external_type_specification]
#[verifier::external_body]
/// Declares `rand`'s small fast generator so it can live in a field.
pub struct ExSmallRng(SmallRng);

#[verifier::external_type_specification]
#[verifier::external_body]
#[allow(deprecated)]
/// Declares `zipf`'s distribution so it can live in a field.
pub struct ExZipfDistribution(zipf::ZipfDistribution);

/// Relies on rand's `SeedableRng::seed_from_u64`: builds a small fast
/// generator from a seed.  Nothing is promised of the stream it yields.
#[verifier::external_body]
pub(crate) fn rng_from_seed(seed: u64) -> SmallRng {
    SmallRng::seed_from_u64(seed)
}

/// Relies on rand's `Rng::gen_range`: a sample from a non-empty range is
/// uniform within it, and in particular inside it.
#[verifier::external_body]
pub(crate) fn gen_range_u64(rng: &mut SmallRng, low: u64, high: u64) -> (r: u64)
    requires
        low < high,
    ensures
        low <= r < high,
{
    rng.gen_range(low..high)
}

/// Whether the Zipf constructor accepts a skew written as the given
/// text: the text reads as a finite number greater than zero.  The
/// outcome depends on the text alone, so it gets a name rather than a
/// spelled-out float grammar; [`zipf_new`] is its only source.
pub uninterp spec fn spec_skew_ok(s: Seq<char>) -> bool;

/// Relies on `zipf::ZipfDistribution::new`: it accepts an element count
/// of at least one and a positive exponent, and refuses anything else.
/// The exponent arrives as text; one that does not read as a finite
/// number is refused here so that later sampling always terminates.
/// Acceptance of the text is [`spec_skew_ok`].
#[verifier::external_body]
#[allow(deprecated)]
pub(crate) fn zipf_new(num_elements: usize, exponent: &str) -> (r: Option<zipf::ZipfDistribution>)
    ensures
        (r is Some) <==> (num_elements >= 1 && spec_skew_ok(exponent@)),
{
    match exponent.parse() {
        Ok(e) => {
            let dist = zipf::ZipfDistribution::new(num_elements, e).ok();
            if e.is_finite() {
                dist
            } else {
                None
            }
        },
        Err(_) => None,
    }
}

/// Relies on `zipf::ZipfDistribution`'s `Distribution::sample`: it
/// returns a rank in `[1, num_elements]`, so always at least 1.
#[verifier::external_body]
#[allow(deprecated)]
pub(crate) fn zipf_sample(dist: &zipf::ZipfDistribution, rng: &mut SmallRng) -> (r: usize)
    ensures
        r >= 1,
{
    dist.sample(rng)
}

} // verus!
