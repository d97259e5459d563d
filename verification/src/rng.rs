//! The seeded word stream that drives shuffling.
//!
//! The words come from the ChaCha8 generator of `rand_chacha`. A generator
//! that was seeded from a `u64` and has only ever been asked for 32-bit words
//! is described completely by that seed and by its position in the stream, so
//! this module keeps those two numbers and asks the generator for one word at
//! a time.

use rand_chacha::rand_core::{RngCore, SeedableRng};
use rand_chacha::ChaCha8Rng;
use vstd::prelude::*;

verus! {

/// Number of 32-bit words after which a ChaCha stream repeats: a 64-bit block
/// counter over blocks of 16 words.
pub const STREAM_PERIOD: u128 = 0x10_0000_0000_0000_0000;

/// The 32-bit word that a `ChaCha8Rng` seeded with `seed` yields when it stands
/// at `word_pos` of its stream.
pub uninterp spec fn chacha8_word(seed: u64, word_pos: u128) -> u32;

/// Reads one word of a seeded ChaCha8 stream.
///
/// Trusted. The body seeds a generator with `SeedableRng::seed_from_u64`,
/// moves it with `ChaCha8Rng::set_word_pos` and reads it with
/// `RngCore::next_u32`. All three are deterministic and none of them panics,
/// so the word read depends on `seed` and `word_pos` only; the contract gives
/// that word its name and claims nothing else about it.
#[verifier::external_body]
fn chacha8_word_at(seed: u64, word_pos: u128) -> (word: u32)
    ensures
        word == chacha8_word(seed, word_pos),
{
    let mut rng = ChaCha8Rng::seed_from_u64(seed);
    rng.set_word_pos(word_pos);
    rng.next_u32()
}

/// The stream position that follows `word_pos`.
pub open spec fn next_word_pos(word_pos: u128) -> u128 {
    ((word_pos + 1) % (STREAM_PERIOD as int)) as u128
}

/// A pseudo-random generator: a seed and a position in the seed's stream.
#[derive(Debug, Clone, Copy, PartialEq, Eq, Structural)]
pub struct DeckRng {
    pub seed: u64,
    pub word_pos: u128,
}

impl DeckRng {
    /// The generator for `seed`, at the start of its stream.
    pub open spec fn seeded(seed: u64) -> DeckRng {
        DeckRng { seed, word_pos: 0 }
    }

    /// The word that the next draw returns.
    pub open spec fn word(self) -> u32 {
        chacha8_word(self.seed, self.word_pos)
    }

    /// The generator after one draw.
    pub open spec fn step(self) -> DeckRng {
        DeckRng { seed: self.seed, word_pos: next_word_pos(self.word_pos) }
    }

    /// The generator after `n` draws.
    pub open spec fn advance(self, n: nat) -> DeckRng
        decreases n,
    {
        if n == 0 {
            self
        } else {
            self.advance((n - 1) as nat).step()
        }
    }

    /// The words that the next `n` draws return, in the order of the draws.
    pub open spec fn words(self, n: nat) -> Seq<u32> {
        Seq::new(n, |k: int| self.advance(k as nat).word())
    }

    /// Starts the stream of `seed`.
    pub fn seed_from_u64(seed: u64) -> (rng: Self)
        ensures
            rng == Self::seeded(seed),
    {
        DeckRng { seed, word_pos: 0 }
    }

    /// Draws the next word of the stream.
    pub fn next_u32(&mut self) -> (word: u32)
        ensures
            word == old(self).word(),
            *final(self) == old(self).step(),
    {
        let word = chacha8_word_at(self.seed, self.word_pos);
        let pos = self.word_pos % STREAM_PERIOD;
        assert((pos + 1) % (STREAM_PERIOD as int) == (self.word_pos + 1) % (STREAM_PERIOD as int))
            by (nonlinear_arith)
            requires
                pos == self.word_pos % STREAM_PERIOD,
                STREAM_PERIOD > 0,
        ;
        self.word_pos = if pos == STREAM_PERIOD - 1 {
            0
        } else {
            pos + 1
        };
        word
    }
}

} // verus!
