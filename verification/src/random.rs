//! The random stream of a body.
//!
//! Every random choice is one draw from one stream, the output of the
//! ChaCha generator of the `rand_chacha` crate seeded with the seed word of
//! the body.  A draw is made at a place of the stream, so that it depends
//! on nothing but the seed word, the place and the interval drawn from.
//!
//! That is why the stream is ChaCha, the generator behind the standard
//! generator of `rand`, and not the small generator of `rand`: the small
//! generator is another algorithm on a machine with 32-bit pointers than on
//! one with 64-bit pointers, and it cannot be moved to a place of its
//! output.  A body would then not have the same image on every machine,
//! and a draw could not be named by its seed and its place.

use vstd::prelude::*;
use rand::{Rng, SeedableRng};
use rand_chacha::ChaCha12Rng;
use crate::types::UNIT;

verus! {

/// The draw from the interval from `low` to `high` that the stream of
/// `seed` gives at the word `word` of its output.
pub uninterp spec fn stream_draw(seed: u64, word: u64, low: i64, high: i64) -> i64;

/// Calls `ChaCha12Rng::seed_from_u64`, `ChaCha12Rng::set_word_pos` and
/// `Rng::gen_range` on the closed range from `low` to `high`, which panics
/// on an empty range.  The generator is made anew from the seed and moved
/// to the given word of its output, so the draw is a function of the four
/// arguments; the contract gives it its name and claims that it lies in
/// the range.
#[verifier::external_body]
fn draw_at(seed: u64, word: u64, low: i64, high: i64) -> (draw: i64)
    requires
        low <= high,
    ensures
        draw == stream_draw(seed, word, low, high),
        low <= draw <= high,
{
    let mut stream = ChaCha12Rng::seed_from_u64(seed);
    stream.set_word_pos(u128::from(word));
    stream.gen_range(low..=high)
}

/// The number of words of the stream that are set aside for one draw.  A
/// draw takes two words, and two more each time it has to be made again
/// because the words fell outside the part of their range that divides
/// evenly over the interval.
pub const WORDS_PER_DRAW: u64 = 64;

/// The largest number that a draw of the stream may have.
pub const MAX_DRAWS: u64 = 0x1000_0000;

/// Draw number `index` of the stream of `seed`, from the interval from
/// `low` to `high`.
pub open spec fn draw_of(seed: u64, index: u64, low: i64, high: i64) -> i64 {
    stream_draw(seed, (index * WORDS_PER_DRAW) as u64, low, high)
}

/// Draw number `index` of the stream of `seed`, taken as a fraction
/// between zero and one, in millionths.
pub open spec fn fraction_of(seed: u64, index: u64) -> u32 {
    draw_of(seed, index, 0, UNIT) as u32
}

/// Makes draw number `index` of the stream of `seed`, from the interval
/// from `low` to `high`.
pub fn draw_between(seed: u64, index: u64, low: i64, high: i64) -> (draw: i64)
    requires
        index <= MAX_DRAWS,
        low <= high,
    ensures
        draw == draw_of(seed, index, low, high),
        low <= draw <= high,
{
    draw_at(seed, index * WORDS_PER_DRAW, low, high)
}

/// Makes draw number `index` of the stream of `seed`, a fraction between
/// zero and one, in millionths.
pub fn draw_fraction(seed: u64, index: u64) -> (draw: u32)
    requires
        index <= MAX_DRAWS,
    ensures
        draw == fraction_of(seed, index),
        draw <= UNIT,
{
    let draw: i64 = draw_between(seed, index, 0, UNIT);
    draw as u32
}

} // verus!
