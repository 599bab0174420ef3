//! The random choices the gateway makes.

use rand::distr::{Bernoulli, Distribution};
use rand::rngs::StdRng;
use rand::{Rng, SeedableRng};
use vstd::prelude::*;

verus! {

/// The random number generator of the `rand` crate.
#[verifier::external_type_specification]
#[verifier::external_body]
pub struct ExStdRng(StdRng);

/// A probability, as the `rand` crate keeps it.
#[verifier::external_type_specification]
#[verifier::external_body]
pub struct ExBernoulli(Bernoulli);

/// What a probability holds: how many of the 2^64 words that a draw may see come up `true`.
/// `u64::MAX` stands for all of them.
pub uninterp spec fn rate_weight(rate: Bernoulli) -> u64;

/// Whether a draw with this probability comes up `true` every time.
pub open spec fn certain(rate: Bernoulli) -> bool {
    rate_weight(rate) == u64::MAX
}

/// Whether a draw with this probability never comes up `true`.
pub open spec fn impossible(rate: Bernoulli) -> bool {
    rate_weight(rate) == 0
}

/// The state that a generator is in. It takes no input once it is made, so its state is all
/// that its draws depend on.
pub uninterp spec fn generator_state(rng: StdRng) -> Seq<u8>;

/// The state of a generator that was made from a seed.
pub uninterp spec fn seeded_state(seed: u64) -> Seq<u8>;

/// `rand::SeedableRng::seed_from_u64`: a generator whose state is a function of the seed, by
/// the name `seeded_state`. What that state is, is left unsaid: the crate keeps the right to
/// seed and to draw differently in another version.
#[verifier::external_body]
fn seeded(seed: u64) -> (rng: StdRng)
    ensures
        generator_state(rng) == seeded_state(seed),
{
    StdRng::seed_from_u64(seed)
}

/// `rand::SeedableRng::from_os_rng`: a generator that is seeded by the operating system, so
/// nothing is known of its state. The call panics on a machine that has no random numbers to
/// give.
#[verifier::external_body]
fn unseeded() -> (rng: StdRng) {
    StdRng::from_os_rng()
}

/// A generator: the one that belongs to the seed, or else one that the operating system seeds.
pub fn generator(seed: Option<u64>) -> (rng: StdRng)
    ensures
        seed matches Some(n) ==> generator_state(rng) == seeded_state(n),
{
    match seed {
        Some(n) => seeded(n),
        None => unseeded(),
    }
}

/// A draw from `low..=high` in a given state: what comes up, and the state after it.
pub uninterp spec fn between_draw(state: Seq<u8>, low: u64, high: u64) -> (u64, Seq<u8>);

/// `rand::Rng::random_range` over `low..=high`. What comes up, and the state of the generator
/// afterwards, are functions of its state and of the bounds, by the name `between_draw`. It is
/// some value between the two bounds; how it is found is left unsaid. The call panics on an
/// empty range, which `requires` leaves out.
#[verifier::external_body]
pub(crate) fn draw_between(rng: &mut StdRng, low: u64, high: u64) -> (n: u64)
    requires
        low <= high,
    ensures
        (n, generator_state(*final(rng))) == between_draw(generator_state(*old(rng)), low, high),
        low <= n <= high,
{
    rng.random_range(low..=high)
}

/// A draw from `0..len` in a given state: what comes up, and the state after it.
pub uninterp spec fn index_draw(state: Seq<u8>, len: usize) -> (usize, Seq<u8>);

/// `rand::Rng::random_range` over `0..len`. What comes up, and the state of the generator
/// afterwards, are functions of its state and of the length, by the name `index_draw`. It is
/// some position in a list of that length; how it is found is left unsaid. The call panics on
/// an empty range, which `requires` leaves out.
#[verifier::external_body]
pub(crate) fn draw_index(rng: &mut StdRng, len: usize) -> (n: usize)
    requires
        0 < len,
    ensures
        (n, generator_state(*final(rng))) == index_draw(generator_state(*old(rng)), len),
        n < len,
{
    rng.random_range(0..len)
}

/// A draw with a probability in a given state: what comes up, and the state after it.
pub uninterp spec fn chance_draw(state: Seq<u8>, weight: u64) -> (bool, Seq<u8>);

/// `rand::distr::Bernoulli::sample`. What comes up, and the state of the generator afterwards,
/// are functions of its state and of the probability, by the name `chance_draw`. A probability
/// of one always gives `true` and one of zero never does; how it is drawn in between is left
/// unsaid.
#[verifier::external_body]
pub(crate) fn draw_chance(rng: &mut StdRng, rate: &Bernoulli) -> (hit: bool)
    ensures
        (hit, generator_state(*final(rng))) == chance_draw(
            generator_state(*old(rng)),
            rate_weight(*rate),
        ),
        certain(*rate) ==> hit,
        impossible(*rate) ==> !hit,
{
    rate.sample(rng)
}

/// The weight of the probability `numerator / denominator` in the `rand` crate.
pub uninterp spec fn ratio_weight(numerator: u32, denominator: u32) -> u64;

/// `rand::distr::Bernoulli::from_ratio`: the probability of `numerator` in `denominator`. It
/// is a function of the two numbers, and bears the name `ratio_weight`. Equal numbers make it
/// certain, and nothing else does; zero in anything makes it impossible. It fails on a ratio
/// above one and on a denominator of zero, which `requires` leaves out.
#[verifier::external_body]
pub(crate) fn rate_of(numerator: u32, denominator: u32) -> (rate: Bernoulli)
    requires
        numerator <= denominator,
        0 < denominator,
    ensures
        rate_weight(rate) == ratio_weight(numerator, denominator),
        certain(rate) <==> numerator == denominator,
        numerator == 0 ==> impossible(rate),
{
    Bernoulli::from_ratio(numerator, denominator).unwrap()
}

} // verus!
