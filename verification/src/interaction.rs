//! What the pairwise interaction pass decides without arithmetic: the
//! periodic images to visit, and whether a pair at a given squared distance
//! contributes.
use crate::double::{Double, Value};
use crate::particles::Triple;
use vstd::prelude::*;

verus! {

/// The number of periodic images: the box itself and its 26 neighbours.
pub const PERIODIC_IMAGES_AMOUNT: usize = 27;

/// One component of a translation: nothing for digit 0, the box edge for
/// digit 1, the box edge negated for digit 2.
pub open spec fn image_component(edge: Double, digit: int) -> Double {
    if digit == 0 {
        Double { bits: 0 }
    } else if digit == 1 {
        edge
    } else {
        edge.spec_neg()
    }
}

/// The translation at place `k` of the table: `k` read as three base-3
/// digits, the highest for `x`.
pub open spec fn image(edge: Double, k: int) -> Triple {
    Triple {
        x: image_component(edge, k / 9),
        y: image_component(edge, (k / 3) % 3),
        z: image_component(edge, k % 3),
    }
}

/// The digit of the opposite component: 1 swapped with 2.
pub open spec fn flip(digit: int) -> int {
    (3 - digit) % 3
}

/// The place of the opposite translation: each digit flipped.
pub open spec fn mirror(k: int) -> int {
    9 * flip(k / 9) + 3 * flip((k / 3) % 3) + flip(k % 3)
}

/// `b` is `a` negated, or both are plus zero.
pub open spec fn opposite(a: Double, b: Double) -> bool {
    (a.bits == 0 && b.bits == 0) || b == a.spec_neg()
}

fn component(edge: Double, digit: usize) -> (r: Double)
    ensures
        r == image_component(edge, digit as int),
{
    if digit == 0 {
        Double { bits: 0 }
    } else if digit == 1 {
        edge
    } else {
        edge.neg()
    }
}

/// Builds the table of translations to the periodic images of a cubic box
/// with the given edge: every combination of nothing, `edge` and `-edge` on
/// the three axes, the zero translation first.
pub fn translation_vectors(edge: Double) -> (table: Vec<Triple>)
    ensures
        table@.len() == PERIODIC_IMAGES_AMOUNT,
        forall|k: int| 0 <= k < PERIODIC_IMAGES_AMOUNT ==> #[trigger] table@[k] == image(edge, k),
{
    let mut table: Vec<Triple> = Vec::new();
    let mut k: usize = 0;
    while k < PERIODIC_IMAGES_AMOUNT
        invariant
            k <= PERIODIC_IMAGES_AMOUNT,
            table@.len() == k,
            forall|j: int| 0 <= j < k ==> #[trigger] table@[j] == image(edge, j),
        decreases PERIODIC_IMAGES_AMOUNT - k,
    {
        let t = Triple {
            x: component(edge, k / 9),
            y: component(edge, (k / 3) % 3),
            z: component(edge, k % 3),
        };
        table.push(t);
        k = k + 1;
    }
    table
}

/// The table is the whole Cartesian product: each choice of three digits
/// stands at a place of the table, and that place has those digits.
pub proof fn lemma_images_cover(edge: Double, a: int, b: int, c: int)
    requires
        0 <= a < 3,
        0 <= b < 3,
        0 <= c < 3,
    ensures
        0 <= 9 * a + 3 * b + c < PERIODIC_IMAGES_AMOUNT,
        (9 * a + 3 * b + c) / 9 == a,
        ((9 * a + 3 * b + c) / 3) % 3 == b,
        (9 * a + 3 * b + c) % 3 == c,
        image(edge, 9 * a + 3 * b + c) == (Triple {
            x: image_component(edge, a),
            y: image_component(edge, b),
            z: image_component(edge, c),
        }),
{
}

/// Each place of the table is the place of its own three digits, so no
/// choice of digits stands at two places.
pub proof fn lemma_image_digits(k: int)
    requires
        0 <= k < PERIODIC_IMAGES_AMOUNT,
    ensures
        0 <= k / 9 < 3,
        0 <= (k / 3) % 3 < 3,
        0 <= k % 3 < 3,
        k == 9 * (k / 9) + 3 * ((k / 3) % 3) + k % 3,
{
}

proof fn lemma_component_opposite(edge: Double, digit: int)
    requires
        0 <= digit < 3,
    ensures
        0 <= flip(digit) < 3,
        flip(flip(digit)) == digit,
        flip(digit) == digit <==> digit == 0,
        opposite(image_component(edge, digit), image_component(edge, flip(digit))),
{
    assert(edge.spec_neg().spec_neg() == edge);
}

/// The table is symmetric: the opposite of every translation is in it too,
/// at the mirrored place, and mirroring twice leads back.
pub proof fn lemma_images_symmetric(edge: Double, k: int)
    requires
        0 <= k < PERIODIC_IMAGES_AMOUNT,
    ensures
        0 <= mirror(k) < PERIODIC_IMAGES_AMOUNT,
        mirror(mirror(k)) == k,
        mirror(k) == k <==> k == 0,
        opposite(image(edge, k).x, image(edge, mirror(k)).x),
        opposite(image(edge, k).y, image(edge, mirror(k)).y),
        opposite(image(edge, k).z, image(edge, mirror(k)).z),
{
    let a = k / 9;
    let b = (k / 3) % 3;
    let c = k % 3;
    lemma_image_digits(k);
    lemma_component_opposite(edge, a);
    lemma_component_opposite(edge, b);
    lemma_component_opposite(edge, c);
    let m = 9 * flip(a) + 3 * flip(b) + flip(c);
    assert(m == mirror(k));
    lemma_images_cover(edge, flip(a), flip(b), flip(c));
    assert(m / 9 == flip(a));
    assert((m / 3) % 3 == flip(b));
    assert(m % 3 == flip(c));
}

/// One step of the pass: the image at place `image` of the table, and the
/// ordered pair of particle `i` with the translated particle `j`.
pub struct Visit {
    pub image: int,
    pub i: int,
    pub j: int,
}

impl Visit {
    /// The step belongs to the pass over `n` particles: every image, and
    /// `i` and `j` each over all particles, independently.
    pub open spec fn in_pass(self, n: int) -> bool {
        &&& 0 <= self.image < PERIODIC_IMAGES_AMOUNT
        &&& 0 <= self.i < n
        &&& 0 <= self.j < n
    }

    /// The same interaction seen from the other particle: the opposite
    /// translation, and the pair in the other order.
    pub open spec fn partner(self) -> Visit {
        Visit { image: mirror(self.image), i: self.j, j: self.i }
    }
}

/// The pass meets every interaction from both sides: each step has a
/// partner in the pass, the partner's partner is the step itself, and only
/// a particle with itself under the zero translation is its own partner.
/// That is why forces are added at `i` alone, and why the energy sum counts
/// every pair twice.
pub proof fn lemma_visits_pair_up(v: Visit, n: int)
    requires
        v.in_pass(n),
    ensures
        v.partner().in_pass(n),
        v.partner().partner() == v,
        v.partner() == v <==> v.image == 0 && v.i == v.j,
{
    lemma_images_symmetric(Double { bits: 0 }, v.image);
}

/// The whole multiple of the box edge that a digit stands for.
pub open spec fn multiple(digit: int) -> int {
    if digit == 0 {
        0
    } else if digit == 1 {
        1
    } else {
        -1
    }
}

/// The displacement along one axis from the translated particle at `x_j`
/// to the particle at `x_i`, computed without rounding on whole numbers.
pub open spec fn exact_displacement(x_i: int, x_j: int, edge: int, digit: int) -> int {
    x_i - (x_j + edge * multiple(digit))
}

/// Without rounding, the partner of a step sees the opposite displacement,
/// hence the same distance and the opposite force. In double precision the
/// two displacements are rounded apart, which is what the balance check
/// measures.
pub proof fn lemma_partner_sees_opposite(x_i: int, x_j: int, edge: int, digit: int)
    requires
        0 <= digit < 3,
    ensures
        exact_displacement(x_j, x_i, edge, flip(digit)) == -exact_displacement(
            x_i,
            x_j,
            edge,
            digit,
        ),
{
    assert(multiple(flip(digit)) == -multiple(digit));
    assert(edge * multiple(flip(digit)) == -(edge * multiple(digit))) by (nonlinear_arith)
        requires
            multiple(flip(digit)) == -multiple(digit),
    ;
}

/// Whether a pair at squared distance `d2` contributes under squared cutoff
/// `rc2`: not when `d2` is zero, and not when `d2` reaches the cutoff.
pub open spec fn pair_interacts(d2: Value, rc2: Value) -> bool {
    !d2.is_zero() && !rc2.at_most(d2)
}

/// Decides whether a pair enters the energy and force sums.
///
/// A pair is skipped when its squared distance is zero (a particle and
/// itself under the zero translation) or is at least the squared cutoff.
/// A pair exactly at the cutoff is skipped; any nonzero distance below the
/// cutoff is kept.
pub fn interacts(squared_distance: Double, squared_cutoff: Double) -> (r: bool)
    ensures
        r == pair_interacts(squared_distance@, squared_cutoff@),
        squared_distance@.equals(squared_cutoff@) ==> !r,
        squared_distance@.below(squared_cutoff@) && !squared_distance@.is_zero() ==> r,
{
    !squared_distance.is_zero() && !squared_cutoff.at_most(squared_distance)
}

} // verus!
