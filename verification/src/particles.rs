//! Particle data in structure-of-arrays shape, and the scan for coincident
//! particles.
//!
//! One [`Particles`] value holds three equally long columns. Positions,
//! forces and momenta all have this shape.
use crate::double::Double;
use vstd::prelude::*;

verus! {

/// The three components that belong to one particle.
#[derive(Clone, Copy, Debug)]
pub struct Triple {
    pub x: Double,
    pub y: Double,
    pub z: Double,
}

impl Triple {
    /// All three components are numerically equal.
    pub open spec fn coincides(self, other: Triple) -> bool {
        &&& self.x@.equals(other.x@)
        &&& self.y@.equals(other.y@)
        &&& self.z@.equals(other.z@)
    }
}

/// Three columns of one length; index `i` addresses particle `i` in each.
pub struct Particles {
    x: Vec<Double>,
    y: Vec<Double>,
    z: Vec<Double>,
}

/// Positions of the particles in the box.
pub type ParticleSet = Particles;

/// Per-particle net forces, zero before a pass adds to them.
pub type ForceSet = Particles;

/// Per-particle momentum components.
pub type MomentumSet = Particles;

impl View for Particles {
    type V = Seq<Triple>;

    closed spec fn view(&self) -> Seq<Triple> {
        Seq::new(self.x@.len(), |i: int| Triple { x: self.x@[i], y: self.y@[i], z: self.z@[i] })
    }
}

/// No particle before `i`, and no partner of `i` before `j`, coincides with
/// a later particle: the pairs that a scan in increasing `i`, then
/// increasing `j`, has passed when it stands at `(i, j)`.
pub open spec fn none_coincide_before(s: Seq<Triple>, i: int, j: int) -> bool {
    forall|a: int, b: int|
        0 <= a < b < s.len() && (a < i || (a == i && b < j)) ==> !(#[trigger] s[a]).coincides(
            #[trigger] s[b],
        )
}

impl Particles {
    #[verifier::type_invariant]
    spec fn columns_agree(self) -> bool {
        self.x@.len() == self.y@.len() && self.y@.len() == self.z@.len()
    }

    /// A set of no particles.
    pub fn empty() -> (r: Particles)
        ensures
            r@ == Seq::<Triple>::empty(),
    {
        let r = Particles { x: Vec::new(), y: Vec::new(), z: Vec::new() };
        assert(r@ =~= Seq::<Triple>::empty());
        r
    }

    /// A set of `n` particles with every component plus zero: forces before
    /// a pass has added to them.
    pub fn zeroed(n: usize) -> (r: ForceSet)
        ensures
            r@.len() == n,
            forall|i: int|
                0 <= i < n ==> {
                    &&& (#[trigger] r@[i]).x.bits == 0
                    &&& r@[i].y.bits == 0
                    &&& r@[i].z.bits == 0
                },
    {
        let zero = Double { bits: 0 };
        let mut r = Particles::empty();
        let mut i: usize = 0;
        while i < n
            invariant
                i <= n,
                zero.bits == 0,
                r@.len() == i,
                forall|j: int|
                    0 <= j < i ==> {
                        &&& (#[trigger] r@[j]).x.bits == 0
                        &&& r@[j].y.bits == 0
                        &&& r@[j].z.bits == 0
                    },
            decreases n - i,
        {
            r = r.push(Triple { x: zero, y: zero, z: zero });
            i = i + 1;
        }
        r
    }

    /// Joins three columns; `None` when their lengths differ.
    pub fn new(x: Vec<Double>, y: Vec<Double>, z: Vec<Double>) -> (r: Option<Particles>)
        ensures
            r is Some <==> x@.len() == y@.len() && y@.len() == z@.len(),
            r matches Some(p) ==> {
                &&& p@.len() == x@.len()
                &&& forall|i: int|
                    0 <= i < p@.len() ==> #[trigger] p@[i] == (Triple {
                        x: x@[i],
                        y: y@[i],
                        z: z@[i],
                    })
            },
    {
        if x.len() == y.len() && y.len() == z.len() {
            Some(Particles { x, y, z })
        } else {
            None
        }
    }

    /// The set with one particle appended.
    pub fn push(self, t: Triple) -> (r: Particles)
        ensures
            r@ == self@.push(t),
    {
        proof {
            use_type_invariant(&self);
        }
        let ghost before = self@;
        let Particles { mut x, mut y, mut z } = self;
        x.push(t.x);
        y.push(t.y);
        z.push(t.z);
        let r = Particles { x, y, z };
        assert(r@ =~= before.push(t));
        r
    }

    /// The number of particles.
    pub fn len(&self) -> (n: usize)
        ensures
            n == self@.len(),
    {
        self.x.len()
    }

    /// The components of particle `i`.
    pub fn get(&self, i: usize) -> (t: Triple)
        requires
            i < self@.len(),
        ensures
            t == self@[i as int],
    {
        proof {
            use_type_invariant(self);
        }
        Triple { x: self.x[i], y: self.y[i], z: self.z[i] }
    }

    /// Scans every pair `i < j` in increasing `i`, then increasing `j`, and
    /// returns the first whose triples are numerically equal.
    ///
    /// `Some((i, j))` names a coinciding pair before which the scan met none;
    /// `None` says that no pair coincides.
    pub fn check_input(&self) -> (r: Option<(usize, usize)>)
        ensures
            match r {
                Some((i, j)) => {
                    &&& i < j < self@.len()
                    &&& self@[i as int].coincides(self@[j as int])
                    &&& none_coincide_before(self@, i as int, j as int)
                },
                None => none_coincide_before(self@, self@.len() as int, 0),
            },
    {
        proof {
            use_type_invariant(self);
        }
        let n: usize = self.x.len();
        let mut i: usize = 0;
        while i < n
            invariant
                i <= n,
                n == self.x@.len(),
                n == self.y@.len(),
                n == self.z@.len(),
                none_coincide_before(self@, i as int, 0),
            decreases n - i,
        {
            let mut j: usize = i + 1;
            while j < n
                invariant
                    i < j <= n,
                    n == self.x@.len(),
                    n == self.y@.len(),
                    n == self.z@.len(),
                    none_coincide_before(self@, i as int, j as int),
                decreases n - j,
            {
                if self.x[i].equals(self.x[j]) && self.y[i].equals(self.y[j]) && self.z[i].equals(
                    self.z[j],
                ) {
                    return Some((i, j));
                }
                j = j + 1;
            }
            i = i + 1;
        }
        None
    }
}

} // verus!
