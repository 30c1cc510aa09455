//! The source of randomness: a seedable generator and the three draws the
//! rest of the library is built on.
//!
//! The generator is the ChaCha stream with twelve rounds, keyed from a seed.
//! A sampler is no more than the seed and the position it has reached in
//! that stream, so every draw is a function of the state of the sampler and
//! of what is asked of it, and a run can be repeated, or resumed, from the
//! two numbers.

use rand::Rng;
use rand::SeedableRng;
use rand_chacha::ChaCha12Rng;
use vstd::prelude::*;

verus! {

/// A pseudo-random generator. Every random decision of one generation run is
/// drawn from a single `Sampler`, so a run is reproducible from its seed.
#[derive(Debug, PartialEq, Eq)]
pub struct Sampler {
    /// The seed the stream is keyed from.
    pub seed: u64,
    /// The position of the next draw in the stream, in 32-bit words.
    pub position: u128,
}

/// What `Rng::gen_range(low..high)` returns on the ChaCha12 generator that
/// is keyed from `seed` and stands at word `position` of its stream.
pub uninterp spec fn range_draw(seed: u64, position: u128, low: i64, high: i64) -> i64;

/// What `ChaCha12Rng::get_word_pos` returns after that draw: the word of
/// the stream at which the generator then stands.
pub uninterp spec fn range_end(seed: u64, position: u128, low: i64, high: i64) -> u128;

/// What `Rng::gen_ratio(numerator, denominator)` returns on the ChaCha12
/// generator that is keyed from `seed` and stands at word `position` of its
/// stream.
pub uninterp spec fn ratio_draw(
    seed: u64,
    position: u128,
    numerator: u32,
    denominator: u32,
) -> bool;

/// The length of the stream in 32-bit words, after which it starts again:
/// two to the power of 68.
pub open spec fn stream_length() -> int {
    0x10_0000_0000_0000_0000
}

/// Where the generator stands after that draw: a ratio of one is decided
/// without reading the stream, every other ratio by the two words at the
/// position, which is taken within the length of the stream.
pub open spec fn ratio_end(seed: u64, position: u128, numerator: u32, denominator: u32) -> u128 {
    if numerator == denominator {
        (position as int % stream_length()) as u128
    } else {
        ((position as int % stream_length() + 2) % stream_length()) as u128
    }
}

/// `Rng::gen_range` on a half-open `i64` range, on the generator made by
/// `ChaCha12Rng::seed_from_u64(seed)` and moved to `position` by
/// `set_word_pos`; with the draw comes the position `get_word_pos` reports
/// after it. Both are named, not described. The range must be non-empty
/// (the call panics otherwise); the value drawn lies in it.
#[verifier::external_body]
fn draw_range(seed: u64, position: u128, low: i64, high: i64) -> (r: (i64, u128))
    requires
        low < high,
    ensures
        r.0 == range_draw(seed, position, low, high),
        r.1 == range_end(seed, position, low, high),
        low <= r.0 < high,
{
    let mut rng = ChaCha12Rng::seed_from_u64(seed);
    rng.set_word_pos(position);
    let value = rng.gen_range(low..high);
    (value, rng.get_word_pos())
}

/// `Rng::gen_ratio`, true with probability `numerator / denominator`, on
/// the generator made by `ChaCha12Rng::seed_from_u64(seed)` and moved to
/// `position` by `set_word_pos`; with the draw comes the position
/// `get_word_pos` reports after it. The draw is named, not described; the
/// position is that of `set_word_pos`, which keeps the lower 68 bits, moved
/// on by the two words of the one 64-bit number that `Bernoulli::sample`
/// reads unless the ratio is one. The call panics on a zero denominator or
/// a ratio above one; a ratio of one always gives true and a ratio of zero
/// always gives false.
#[verifier::external_body]
fn draw_ratio(seed: u64, position: u128, numerator: u32, denominator: u32) -> (r: (bool, u128))
    requires
        denominator > 0,
        numerator <= denominator,
    ensures
        r.0 == ratio_draw(seed, position, numerator, denominator),
        r.1 == ratio_end(seed, position, numerator, denominator),
        numerator == denominator ==> r.0,
        numerator == 0 ==> !r.0,
{
    let mut rng = ChaCha12Rng::seed_from_u64(seed);
    rng.set_word_pos(position);
    let value = rng.gen_ratio(numerator, denominator);
    (value, rng.get_word_pos())
}

impl Sampler {
    /// A sampler at the start of the stream of `seed`.
    pub fn seeded(seed: u64) -> (s: Sampler)
        ensures
            s.seed == seed,
            s.position == 0,
    {
        Sampler { seed, position: 0 }
    }

    /// A uniformly drawn integer in `low..high`: the draw of the generator
    /// at the state of the sampler, which moves on to where the draw ends.
    pub fn below(&mut self, low: i64, high: i64) -> (r: i64)
        requires
            low < high,
        ensures
            low <= r < high,
            r == range_draw(old(self).seed, old(self).position, low, high),
            final(self).seed == old(self).seed,
            final(self).position == range_end(old(self).seed, old(self).position, low, high),
    {
        let (value, end) = draw_range(self.seed, self.position, low, high);
        self.position = end;
        value
    }

    /// A uniformly drawn integer in `low..=high`: the draw from the range
    /// that ends one after `high`.
    pub fn between(&mut self, low: u32, high: u32) -> (r: u32)
        requires
            low <= high,
        ensures
            low <= r <= high,
            r == range_draw(
                old(self).seed,
                old(self).position,
                low as i64,
                (high + 1) as i64,
            ),
            final(self).seed == old(self).seed,
            final(self).position == range_end(
                old(self).seed,
                old(self).position,
                low as i64,
                (high + 1) as i64,
            ),
    {
        let (value, end) = draw_range(self.seed, self.position, low as i64, high as i64 + 1);
        self.position = end;
        value as u32
    }

    /// True with probability `numerator / denominator`: the draw of the
    /// generator at the state of the sampler, which moves on to where the
    /// draw ends.
    pub fn chance(&mut self, numerator: u32, denominator: u32) -> (r: bool)
        requires
            denominator > 0,
            numerator <= denominator,
        ensures
            numerator == denominator ==> r,
            numerator == 0 ==> !r,
            r == ratio_draw(old(self).seed, old(self).position, numerator, denominator),
            final(self).seed == old(self).seed,
            final(self).position == ratio_end(
                old(self).seed,
                old(self).position,
                numerator,
                denominator,
            ),
    {
        let (value, end) = draw_ratio(self.seed, self.position, numerator, denominator);
        self.position = end;
        value
    }
}

} // verus!
