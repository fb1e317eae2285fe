//! The velocity initialiser's exact part: the degrees of freedom, and the
//! first draw of the momenta from the pseudo-random source.
//!
//! Each momentum component takes two uniform numbers `u1` and `u2` from
//! `[0, 1)` and is `signe(1, 0.5 - u1) * u2`. No step of this rounds: the
//! difference `0.5 - u1` is a multiple of 2^-53 of magnitude at most one
//! half, and the product of `u2` with plus or minus one is `u2` with that
//! sign.
use crate::double::{lemma_value_fixes_bits, signe, signe_value, Double, Value, HIDDEN_BIT};
use crate::generator::{
    next_word, seed_generator, seeded_word, uniform_from_word, uniform_value, upcoming_word,
    DROPPED_BITS, HALF_BITS, ONE_BITS,
};
use crate::particles::{MomentumSet, Particles, Triple};
use rand_chacha::ChaCha8Rng;
use vstd::arithmetic::power2::*;
use vstd::prelude::*;

verus! {

/// The degrees of freedom of `n` particles: three each, less the three of
/// the system's overall translation.
pub fn degrees_of_freedom(n: usize) -> (dof: i128)
    ensures
        dof == 3 * n - 3,
{
    3 * (n as i128) - 3
}

/// The component that two generator words give. With `u1` the uniform
/// number of `sign_word` and `u2` that of `size_word`, it is the product of
/// `signe(1, 0.5 - u1)`, which is plus or minus one, with `u2`.
pub open spec fn component_value(sign_word: u64, size_word: u64) -> Value {
    let one = (Double { bits: ONE_BITS })@;
    let half = (Double { bits: HALF_BITS })@;
    let unit = signe_value(one, half.minus(uniform_value(sign_word)));
    if unit == one {
        uniform_value(size_word)
    } else {
        uniform_value(size_word).negated()
    }
}

/// Subtracts the uniform number of a word from one half. The difference has
/// an encoding of its own, so nothing is rounded.
pub fn half_minus_uniform(word: u64) -> (r: Double)
    ensures
        r@ == (Double { bits: HALF_BITS })@.minus(uniform_value(word)),
{
    let count: u64 = word / DROPPED_BITS;
    proof {
        let p = pow2(1021);
        lemma_pow2_pos(1021);
        assert(HALF_BITS / HIDDEN_BIT == 1022 && HALF_BITS % HIDDEN_BIT == 0);
        assert((HIDDEN_BIT + 0) * p - count * p == (HIDDEN_BIT - count) * p) by (nonlinear_arith);
        assert(count > HIDDEN_BIT <==> (HIDDEN_BIT - count) * p < 0) by (nonlinear_arith)
            requires
                p > 0,
        ;
        assert(-((HIDDEN_BIT - count) * p) == (count - HIDDEN_BIT) * p) by (nonlinear_arith);
        assert(HIDDEN_BIT * p > 0) by (nonlinear_arith)
            requires
                p > 0,
        ;
    }
    if count <= HIDDEN_BIT {
        let rest: u64 = HIDDEN_BIT - count;
        assert((rest * DROPPED_BITS) / (DROPPED_BITS as int) == rest);
        uniform_from_word(rest * DROPPED_BITS)
    } else {
        let rest: u64 = count - HIDDEN_BIT;
        assert((rest * DROPPED_BITS) / (DROPPED_BITS as int) == rest);
        uniform_from_word(rest * DROPPED_BITS).neg()
    }
}

/// Makes one momentum component of two generator words: the sign of
/// `0.5 - u1` transferred to one, times `u2`.
pub fn component_from_words(sign_word: u64, size_word: u64) -> (r: Double)
    ensures
        r@ == component_value(sign_word, size_word),
{
    let one = Double { bits: ONE_BITS };
    let unit = signe(one, half_minus_uniform(sign_word));
    let size = uniform_from_word(size_word);
    if unit.bits == ONE_BITS {
        size
    } else {
        size.neg()
    }
}

/// `t` is the particle that six words give, two for each axis in the order
/// `x`, `y`, `z`, the sign word before the size word.
pub open spec fn is_draw(t: Triple, w0: u64, w1: u64, w2: u64, w3: u64, w4: u64, w5: u64) -> bool {
    &&& t.x@ == component_value(w0, w1)
    &&& t.y@ == component_value(w2, w3)
    &&& t.z@ == component_value(w4, w5)
}

/// `t` is the `i`-th particle drawn from this generator, counted from 0.
pub open spec fn drawn_from_generator(t: Triple, rng: ChaCha8Rng, i: nat) -> bool {
    is_draw(
        t,
        upcoming_word(rng, 6 * i),
        upcoming_word(rng, 6 * i + 1),
        upcoming_word(rng, 6 * i + 2),
        upcoming_word(rng, 6 * i + 3),
        upcoming_word(rng, 6 * i + 4),
        upcoming_word(rng, 6 * i + 5),
    )
}

/// `t` is the `i`-th particle drawn from the stream of this seed.
pub open spec fn drawn_from_seed(t: Triple, seed: u64, i: nat) -> bool {
    is_draw(
        t,
        seeded_word(seed, 6 * i),
        seeded_word(seed, 6 * i + 1),
        seeded_word(seed, 6 * i + 2),
        seeded_word(seed, 6 * i + 3),
        seeded_word(seed, 6 * i + 4),
        seeded_word(seed, 6 * i + 5),
    )
}

/// `momenta` are the first `n` particles drawn from the stream of `seed`.
pub open spec fn is_seeded_draw(momenta: Seq<Triple>, seed: u64, n: nat) -> bool {
    &&& momenta.len() == n
    &&& forall|i: int| 0 <= i < n ==> drawn_from_seed(#[trigger] momenta[i], seed, i as nat)
}

fn draw_component(rng: &mut ChaCha8Rng) -> (r: Double)
    ensures
        r@ == component_value(upcoming_word(*old(rng), 0), upcoming_word(*old(rng), 1)),
        forall|k: nat| #[trigger]
            upcoming_word(*final(rng), k) == upcoming_word(*old(rng), k + 2),
{
    let sign_word: u64 = next_word(rng);
    let size_word: u64 = next_word(rng);
    component_from_words(sign_word, size_word)
}

fn draw_triple(rng: &mut ChaCha8Rng) -> (t: Triple)
    ensures
        drawn_from_generator(t, *old(rng), 0),
        forall|k: nat| #[trigger]
            upcoming_word(*final(rng), k) == upcoming_word(*old(rng), k + 6),
{
    let x = draw_component(rng);
    let y = draw_component(rng);
    let z = draw_component(rng);
    Triple { x, y, z }
}

/// Draws the momenta of `n` particles from the generator: six words for
/// each particle in turn, and the generator moved on by `6 * n` words.
pub fn draw_momenta(rng: &mut ChaCha8Rng, n: usize) -> (momenta: MomentumSet)
    ensures
        momenta@.len() == n,
        forall|i: int|
            0 <= i < n ==> drawn_from_generator(#[trigger] momenta@[i], *old(rng), i as nat),
        forall|k: nat| #[trigger]
            upcoming_word(*final(rng), k) == upcoming_word(*old(rng), (6 * n + k) as nat),
{
    let mut momenta = Particles::empty();
    let mut i: usize = 0;
    while i < n
        invariant
            i <= n,
            momenta@.len() == i,
            forall|j: int|
                0 <= j < i ==> drawn_from_generator(#[trigger] momenta@[j], *old(rng), j as nat),
            forall|k: nat| #[trigger]
                upcoming_word(*rng, k) == upcoming_word(*old(rng), (6 * i + k) as nat),
        decreases n - i,
    {
        let ghost before = *rng;
        let t = draw_triple(rng);
        proof {
            assert(upcoming_word(before, 0) == upcoming_word(*old(rng), (6 * i + 0) as nat));
            assert(upcoming_word(before, 1) == upcoming_word(*old(rng), (6 * i + 1) as nat));
            assert(upcoming_word(before, 2) == upcoming_word(*old(rng), (6 * i + 2) as nat));
            assert(upcoming_word(before, 3) == upcoming_word(*old(rng), (6 * i + 3) as nat));
            assert(upcoming_word(before, 4) == upcoming_word(*old(rng), (6 * i + 4) as nat));
            assert(upcoming_word(before, 5) == upcoming_word(*old(rng), (6 * i + 5) as nat));
            assert(drawn_from_generator(t, *old(rng), i as nat));
            assert forall|k: nat| #[trigger]
                upcoming_word(*rng, k) == upcoming_word(*old(rng), (6 * (i + 1) + k) as nat) by {
                assert(upcoming_word(before, k + 6) == upcoming_word(
                    *old(rng),
                    (6 * i + (k + 6)) as nat,
                ));
            }
        }
        momenta = momenta.push(t);
        i = i + 1;
    }
    momenta
}

/// Draws the momenta of `n` particles from a generator started with `seed`.
pub fn initial_momenta(seed: u64, n: usize) -> (momenta: MomentumSet)
    ensures
        is_seeded_draw(momenta@, seed, n as nat),
{
    let mut rng = seed_generator(seed);
    let ghost start = rng;
    let momenta = draw_momenta(&mut rng, n);
    proof {
        assert forall|i: int| 0 <= i < n implies drawn_from_seed(
            #[trigger] momenta@[i],
            seed,
            i as nat,
        ) by {
            assert(drawn_from_generator(momenta@[i], start, i as nat));
        }
    }
    momenta
}

/// Two draws with one seed and one particle count are the same momenta,
/// bit for bit.
pub proof fn lemma_same_seed_same_momenta(a: Seq<Triple>, b: Seq<Triple>, seed: u64, n: nat)
    requires
        is_seeded_draw(a, seed, n),
        is_seeded_draw(b, seed, n),
    ensures
        a == b,
{
    assert forall|i: int| 0 <= i < n implies a[i] == b[i] by {
        assert(drawn_from_seed(a[i], seed, i as nat));
        assert(drawn_from_seed(b[i], seed, i as nat));
        lemma_value_fixes_bits(a[i].x, b[i].x);
        lemma_value_fixes_bits(a[i].y, b[i].y);
        lemma_value_fixes_bits(a[i].z, b[i].z);
    }
    assert(a =~= b);
}

} // verus!
