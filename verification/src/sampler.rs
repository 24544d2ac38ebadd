//! The injectable random source.
//!
//! One [`Sampler`] value is threaded through a whole render call.  The
//! `System` source draws from the process-wide generator; the `Minimum`
//! source always answers with the least value a draw allows, which makes a
//! render call exactly reproducible and so testable.

use vstd::prelude::*;
use rand::RngExt;

verus! {

/// Relies on rand::rng and rand::RngExt::random_range over `0..n`:
/// a uniformly random index below `n` (the range is non-empty, so the call
/// does not panic).
#[verifier::external_body]
fn draw_index(n: usize) -> (r: usize)
    requires
        n >= 1,
    ensures
        r < n,
{
    rand::rng().random_range(0..n)
}

/// Relies on rand::rng and rand::RngExt::random_range over
/// `-bound..=bound`: a uniformly random deviation within the symmetric
/// bound (the range is non-empty, so the call does not panic).
#[verifier::external_body]
fn draw_jitter(bound: i32) -> (r: i32)
    requires
        bound >= 0,
    ensures
        -bound <= r <= bound,
{
    rand::rng().random_range(-bound..=bound)
}

/// Relies on rand::rng and rand::RngExt::random_ratio: true with
/// probability `1/n`.  Nothing is promised of any one outcome; `1 <= n`
/// keeps the call from panicking.
#[verifier::external_body]
fn draw_one_in(n: u32) -> (r: bool)
    requires
        n >= 1,
{
    rand::rng().random_ratio(1, n)
}

/// A source of random draws for one render call.
pub enum Sampler {
    /// Draws from the process-wide random generator.
    System,
    /// Always answers with the least value a draw allows.
    Minimum,
}

impl Sampler {
    /// A draw of an index below `n`: with the `Minimum` source, always the
    /// first.
    pub fn pick_index(&self, n: usize) -> (r: usize)
        requires
            n >= 1,
        ensures
            r < n,
            self is Minimum ==> r == 0,
    {
        match self {
            Sampler::System => draw_index(n),
            Sampler::Minimum => 0,
        }
    }

    /// A draw of a symmetric deviation in `[-bound, bound]`: with the
    /// `Minimum` source, always the lower end.
    pub fn jitter(&self, bound: i32) -> (r: i32)
        requires
            bound >= 0,
        ensures
            -bound <= r <= bound,
            self is Minimum ==> r == -bound,
    {
        match self {
            Sampler::System => draw_jitter(bound),
            Sampler::Minimum => -bound,
        }
    }

    /// A coin that comes up true with probability `1/n`: with the `Minimum`
    /// source, true exactly when the coin cannot fail, that is when `n`
    /// is one.
    pub fn one_in(&self, n: i32) -> (r: bool)
        requires
            n >= 1,
        ensures
            self is Minimum ==> r == (n == 1),
    {
        match self {
            Sampler::System => draw_one_in(n as u32),
            Sampler::Minimum => n == 1,
        }
    }
}

} // verus!
