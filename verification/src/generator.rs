//! The pseudo-random source: a ChaCha generator with eight rounds, and the
//! conversion of its 64-bit words to uniform numbers in `[0, 1)`.
use crate::double::{lemma_units_increase, units_of, Double, Value, HIDDEN_BIT, INFINITY_BITS};
use rand::{RngCore, SeedableRng};
use rand_chacha::ChaCha8Rng;
use vstd::arithmetic::power2::*;
use vstd::prelude::*;

verus! {

/// `rand_chacha::ChaCha8Rng`, carried through as an opaque value.
#[verifier::external_type_specification]
#[verifier::external_body]
pub struct ExChaCha8Rng(ChaCha8Rng);

/// The word that the generator hands out at its `k`-th next call of
/// `next_u64`, counted from 0.
pub uninterp spec fn upcoming_word(rng: ChaCha8Rng, k: nat) -> u64;

/// The `k`-th word, counted from 0, of the stream that
/// `ChaCha8Rng::seed_from_u64(seed)` starts.
pub uninterp spec fn seeded_word(seed: u64, k: nat) -> u64;

/// Calls `SeedableRng::seed_from_u64` of `rand_chacha::ChaCha8Rng`.
///
/// Claimed and not proved: the generator is a function of the seed alone, so
/// that the words it will hand out are those of the seed's stream.
#[verifier::external_body]
pub(crate) fn seed_generator(seed: u64) -> (rng: ChaCha8Rng)
    ensures
        forall|k: nat| #[trigger] upcoming_word(rng, k) == seeded_word(seed, k),
{
    ChaCha8Rng::seed_from_u64(seed)
}

/// Calls `RngCore::next_u64` of `rand_chacha::ChaCha8Rng`.
///
/// Claimed and not proved: the call returns the generator's next word and
/// moves the generator one word on, so that what was its word `k + 1` is its
/// word `k` afterwards.
#[verifier::external_body]
pub(crate) fn next_word(rng: &mut ChaCha8Rng) -> (word: u64)
    ensures
        word == upcoming_word(*old(rng), 0),
        forall|k: nat| #[trigger]
            upcoming_word(*final(rng), k) == upcoming_word(*old(rng), k + 1),
{
    rng.next_u64()
}

/// How many low bits of a word the conversion drops: it keeps the 53 most
/// significant.
pub const DROPPED_BITS: u64 = 2048;

/// The encoding of one half.
pub const HALF_BITS: u64 = 0x3fe0_0000_0000_0000;

/// The encoding of one.
pub const ONE_BITS: u64 = 0x3ff0_0000_0000_0000;

/// The uniform number that a word gives: its 53 most significant bits, read
/// as a whole number `n`, times 2^-53. In steps of 2^-1074 that is
/// `n * 2^1021`.
pub open spec fn uniform_value(word: u64) -> Value {
    Value::Finite { negative: false, units: ((word / DROPPED_BITS) * pow2(1021)) as nat }
}

/// Converts a generator word to the uniform number in `[0, 1)` that it
/// stands for: the 53 most significant bits of the word times 2^-53.
///
/// Every such number has an exact encoding, which this function builds by
/// shifting the leading bit of the count into the significand's hidden place.
pub fn uniform_from_word(word: u64) -> (r: Double)
    ensures
        r@ == uniform_value(word),
        r@.below((Double { bits: ONE_BITS })@),
{
    let count: u64 = word / DROPPED_BITS;
    if count == 0 {
        proof {
            assert(0 * pow2(1021) == 0) by (nonlinear_arith);
            lemma_units_increase(0, ONE_BITS);
        }
        return Double { bits: 0 };
    }
    let mut significand: u64 = count;
    let mut exponent: u64 = 1022;
    proof {
        lemma2_to64();
    }
    while significand < HIDDEN_BIT
        invariant
            1 <= significand < 2 * HIDDEN_BIT,
            1 <= exponent <= 1022,
            significand >= pow2((1022 - exponent) as nat),
            significand * pow2((exponent - 1) as nat) == count * pow2(1021),
        decreases exponent,
    {
        proof {
            let shift = (1022 - exponent) as nat;
            assert(shift < 52) by {
                lemma2_to64_rest();
                if shift > 52 {
                    lemma_pow2_strictly_increases(52, shift);
                }
            }
            lemma_pow2_unfold(shift + 1);
            lemma_pow2_unfold((exponent - 1) as nat);
            let p = pow2((exponent - 2) as nat);
            assert((2 * significand) * p == significand * (2 * p)) by (nonlinear_arith);
        }
        significand = significand * 2;
        exponent = exponent - 1;
    }
    let bits: u64 = exponent * HIDDEN_BIT + (significand - HIDDEN_BIT);
    proof {
        let f = (significand - HIDDEN_BIT) as int;
        assert(bits == exponent * HIDDEN_BIT + f);
        assert(bits / HIDDEN_BIT == exponent && bits % HIDDEN_BIT == f) by (nonlinear_arith)
            requires
                bits == exponent * HIDDEN_BIT + f,
                0 <= f < HIDDEN_BIT,
                HIDDEN_BIT == 0x0010_0000_0000_0000,
        ;
        assert(bits < INFINITY_BITS);
        assert(units_of(bits) == count * pow2(1021));
        lemma_units_increase(bits, ONE_BITS);
    }
    Double { bits }
}

} // verus!
