//! IEEE-754 binary64 numbers, held by their 64-bit encoding.
//!
//! A [`Double`] is the bit pattern of a double-precision number. Its view is
//! the number that the pattern stands for: not-a-number, an infinity, or a
//! finite value written as a sign and a whole count of the smallest positive
//! step, 2^-1074. Comparisons and sign operations are computed on the pattern
//! and specified on the view.
use vstd::arithmetic::power2::*;
use vstd::prelude::*;

verus! {

/// The encoding's top bit: set for a negative sign.
pub const SIGN_BIT: u64 = 0x8000_0000_0000_0000;

/// The magnitude of both infinities; every larger magnitude is not-a-number.
pub const INFINITY_BITS: u64 = 0x7ff0_0000_0000_0000;

/// Two to the power 52: the weight of the exponent field's lowest bit, and
/// the implicit leading bit of a normal number's significand.
pub const HIDDEN_BIT: u64 = 0x0010_0000_0000_0000;

/// What an encoding stands for.
pub enum Value {
    /// Not a number.
    Nan,
    /// Plus or minus infinity.
    Infinite { negative: bool },
    /// Plus or minus `units` times 2^-1074. Zero keeps its sign.
    Finite { negative: bool, units: nat },
}

impl Value {
    /// A finite value as a signed count of steps; both zeros give 0.
    pub open spec fn signed_units(negative: bool, units: nat) -> int {
        if negative {
            -(units as int)
        } else {
            units as int
        }
    }

    /// Plus or minus zero.
    pub open spec fn is_zero(self) -> bool {
        self matches Value::Finite { units, .. } && units == 0
    }

    /// Numeric equality: never true of not-a-number, and true of the two zeros.
    pub open spec fn equals(self, other: Value) -> bool {
        match (self, other) {
            (
                Value::Finite { negative: n1, units: u1 },
                Value::Finite { negative: n2, units: u2 },
            ) => Value::signed_units(n1, u1) == Value::signed_units(n2, u2),
            (Value::Infinite { negative: n1 }, Value::Infinite { negative: n2 }) => n1 == n2,
            _ => false,
        }
    }

    /// Numeric strict order: never true when either side is not-a-number.
    pub open spec fn below(self, other: Value) -> bool {
        match (self, other) {
            (
                Value::Finite { negative: n1, units: u1 },
                Value::Finite { negative: n2, units: u2 },
            ) => Value::signed_units(n1, u1) < Value::signed_units(n2, u2),
            (Value::Infinite { negative: n1 }, Value::Infinite { negative: n2 }) => n1 && !n2,
            (Value::Infinite { negative }, Value::Finite { .. }) => negative,
            (Value::Finite { .. }, Value::Infinite { negative }) => !negative,
            _ => false,
        }
    }

    /// `self <= other` as numbers.
    pub open spec fn at_most(self, other: Value) -> bool {
        self.below(other) || self.equals(other)
    }

    /// The exact difference `self - other` of two finite values, whether or
    /// not an encoding exists for it. A zero difference is plus zero, except
    /// that minus zero less plus zero is minus zero.
    pub open spec fn minus(self, other: Value) -> Value
        recommends
            self is Finite,
            other is Finite,
    {
        match (self, other) {
            (
                Value::Finite { negative: n1, units: u1 },
                Value::Finite { negative: n2, units: u2 },
            ) => {
                let d = Value::signed_units(n1, u1) - Value::signed_units(n2, u2);
                if u1 == 0 && u2 == 0 {
                    Value::Finite { negative: n1 && !n2, units: 0 }
                } else if d < 0 {
                    Value::Finite { negative: true, units: (-d) as nat }
                } else {
                    Value::Finite { negative: false, units: d as nat }
                }
            },
            _ => Value::Nan,
        }
    }

    /// The same value with the sign cleared; not-a-number stays so.
    pub open spec fn magnitude(self) -> Value {
        match self {
            Value::Nan => Value::Nan,
            Value::Infinite { .. } => Value::Infinite { negative: false },
            Value::Finite { units, .. } => Value::Finite { negative: false, units },
        }
    }

    /// The same value with the sign flipped; not-a-number stays so.
    pub open spec fn negated(self) -> Value {
        match self {
            Value::Nan => Value::Nan,
            Value::Infinite { negative } => Value::Infinite { negative: !negative },
            Value::Finite { negative, units } => Value::Finite { negative: !negative, units },
        }
    }
}

/// The count of 2^-1074 steps that a magnitude below [`INFINITY_BITS`] encodes.
///
/// With exponent field `e` and fraction field `f`: `f` steps for a subnormal
/// (`e == 0`), else `(2^52 + f) * 2^(e - 1)`.
pub open spec fn units_of(magnitude: u64) -> nat {
    let e = magnitude / HIDDEN_BIT;
    let f = magnitude % HIDDEN_BIT;
    if e == 0 {
        f as nat
    } else {
        ((HIDDEN_BIT + f) * pow2((e - 1) as nat)) as nat
    }
}

/// Among magnitudes of finite numbers, a larger encoding is a larger number.
pub proof fn lemma_units_increase(a: u64, b: u64)
    requires
        a < b,
        b < INFINITY_BITS,
    ensures
        units_of(a) < units_of(b),
{
    let ea = a / HIDDEN_BIT;
    let fa = a % HIDDEN_BIT;
    let eb = b / HIDDEN_BIT;
    let fb = b % HIDDEN_BIT;
    assert(ea <= eb);
    if ea == eb {
        if ea != 0 {
            let p = pow2((ea - 1) as nat);
            lemma_pow2_pos((ea - 1) as nat);
            assert((HIDDEN_BIT + fa) * p < (HIDDEN_BIT + fb) * p) by (nonlinear_arith)
                requires
                    fa < fb,
                    p > 0,
            ;
        }
    } else {
        let pb = pow2((eb - 1) as nat);
        lemma_pow2_pos((eb - 1) as nat);
        assert(HIDDEN_BIT * pb <= (HIDDEN_BIT + fb) * pb) by (nonlinear_arith)
            requires
                fb >= 0,
                pb > 0,
        ;
        if ea == 0 {
            assert(HIDDEN_BIT * 1 <= HIDDEN_BIT * pb) by (nonlinear_arith)
                requires
                    pb >= 1,
            ;
        } else {
            let pa = pow2((ea - 1) as nat);
            lemma_pow2_pos((ea - 1) as nat);
            lemma_pow2_unfold(ea as nat);
            assert(pow2(ea as nat) == 2 * pa);
            if ea < eb - 1 {
                lemma_pow2_strictly_increases(ea as nat, (eb - 1) as nat);
            }
            assert(2 * pa <= pb);
            assert((HIDDEN_BIT + fa) * pa < HIDDEN_BIT * (2 * pa)) by (nonlinear_arith)
                requires
                    fa < HIDDEN_BIT,
                    pa > 0,
            ;
            assert(HIDDEN_BIT * (2 * pa) <= HIDDEN_BIT * pb) by (nonlinear_arith)
                requires
                    2 * pa <= pb,
            ;
        }
    }
}

/// Magnitudes of finite numbers compare as the step counts that they
/// encode, and zero is the only one that encodes no steps.
pub proof fn lemma_units_order(a: u64, b: u64)
    requires
        a < INFINITY_BITS,
        b < INFINITY_BITS,
    ensures
        a < b <==> units_of(a) < units_of(b),
        a == b <==> units_of(a) == units_of(b),
        a == 0 <==> units_of(a) == 0,
{
    if a < b {
        lemma_units_increase(a, b);
    }
    if b < a {
        lemma_units_increase(b, a);
    }
    if 0 < a {
        lemma_units_increase(0, a);
    }
}

/// A double-precision number, held by its encoding.
#[derive(Clone, Copy, Debug)]
pub struct Double {
    pub bits: u64,
}

impl View for Double {
    type V = Value;

    open spec fn view(&self) -> Value {
        let m = self.magnitude_bits();
        if m > INFINITY_BITS {
            Value::Nan
        } else if m == INFINITY_BITS {
            Value::Infinite { negative: self.negative() }
        } else {
            Value::Finite { negative: self.negative(), units: units_of(m) }
        }
    }
}

impl Double {
    /// Whether the sign bit is set.
    pub open spec fn negative(self) -> bool {
        self.bits >= SIGN_BIT
    }

    /// The encoding without its sign bit.
    pub open spec fn magnitude_bits(self) -> u64 {
        if self.bits >= SIGN_BIT {
            (self.bits - SIGN_BIT) as u64
        } else {
            self.bits
        }
    }

    fn sign(self) -> (r: bool)
        ensures
            r == self.negative(),
    {
        self.bits >= SIGN_BIT
    }

    fn magnitude(self) -> (m: u64)
        ensures
            m == self.magnitude_bits(),
    {
        if self.bits >= SIGN_BIT {
            self.bits - SIGN_BIT
        } else {
            self.bits
        }
    }

    /// Whether the number is not-a-number.
    pub fn is_nan(self) -> (r: bool)
        ensures
            r == (self@ is Nan),
    {
        self.magnitude() > INFINITY_BITS
    }

    /// Whether the number is plus or minus zero.
    pub fn is_zero(self) -> (r: bool)
        ensures
            r == self@.is_zero(),
    {
        let m: u64 = self.magnitude();
        proof {
            if m < INFINITY_BITS {
                lemma_units_order(m, m);
            }
        }
        m == 0
    }

    /// Numeric equality, as `==` on the numbers themselves: false whenever
    /// either side is not-a-number, true of plus and minus zero.
    pub fn equals(self, other: Double) -> (r: bool)
        ensures
            r == self@.equals(other@),
    {
        let a: u64 = self.magnitude();
        let b: u64 = other.magnitude();
        if a > INFINITY_BITS || b > INFINITY_BITS {
            return false;
        }
        proof {
            if a < INFINITY_BITS && b < INFINITY_BITS {
                lemma_units_order(a, b);
            }
        }
        if a == 0 && b == 0 {
            true
        } else {
            a == b && self.sign() == other.sign()
        }
    }

    /// Numeric strict order, as `<` on the numbers themselves: false whenever
    /// either side is not-a-number.
    pub fn below(self, other: Double) -> (r: bool)
        ensures
            r == self@.below(other@),
    {
        let a: u64 = self.magnitude();
        let b: u64 = other.magnitude();
        if a > INFINITY_BITS || b > INFINITY_BITS {
            return false;
        }
        proof {
            if a < INFINITY_BITS && b < INFINITY_BITS {
                lemma_units_order(a, b);
            }
        }
        if self.sign() {
            if other.sign() {
                b < a
            } else {
                !(a == 0 && b == 0)
            }
        } else {
            if other.sign() {
                false
            } else {
                a < b
            }
        }
    }

    /// `self <= other` on the numbers themselves.
    pub fn at_most(self, other: Double) -> (r: bool)
        ensures
            r == self@.at_most(other@),
    {
        self.below(other) || self.equals(other)
    }

    /// The encoding with the sign bit cleared.
    pub open spec fn spec_abs(self) -> Double {
        Double { bits: self.magnitude_bits() }
    }

    /// The encoding with the sign bit flipped.
    pub open spec fn spec_neg(self) -> Double {
        Double {
            bits: if self.bits >= SIGN_BIT {
                (self.bits - SIGN_BIT) as u64
            } else {
                (self.bits + SIGN_BIT) as u64
            },
        }
    }

    /// The absolute value: the same encoding with the sign bit cleared.
    pub fn abs(self) -> (r: Double)
        ensures
            r == self.spec_abs(),
            r@ == self@.magnitude(),
    {
        Double { bits: self.magnitude() }
    }

    /// The negation: the same encoding with the sign bit flipped.
    pub fn neg(self) -> (r: Double)
        ensures
            r == self.spec_neg(),
            r@ == self@.negated(),
    {
        if self.bits >= SIGN_BIT {
            Double { bits: self.bits - SIGN_BIT }
        } else {
            Double { bits: self.bits + SIGN_BIT }
        }
    }
}

/// A number other than not-a-number has one encoding only: two encodings
/// with the same view are the same bits.
pub proof fn lemma_value_fixes_bits(a: Double, b: Double)
    requires
        a@ == b@,
        !(a@ is Nan),
    ensures
        a == b,
{
    if a@ is Finite {
        lemma_units_order(a.magnitude_bits(), b.magnitude_bits());
    }
}

/// The value that [`signe`] returns: the magnitude of `a`, made negative
/// unless `b` is at least zero. Minus zero counts as at least zero;
/// not-a-number does not.
pub open spec fn signe_value(a: Value, b: Value) -> Value {
    if (Value::Finite { negative: false, units: 0 }).at_most(b) {
        a.magnitude()
    } else {
        a.magnitude().negated()
    }
}

/// Transfers a sign: the magnitude of `a` when `b >= 0`, else its negation.
pub fn signe(a: Double, b: Double) -> (r: Double)
    ensures
        r == if (Value::Finite { negative: false, units: 0 }).at_most(b@) {
            a.spec_abs()
        } else {
            a.spec_abs().spec_neg()
        },
        r@ == signe_value(a@, b@),
{
    let zero = Double { bits: 0 };
    if zero.at_most(b) {
        a.abs()
    } else {
        a.abs().neg()
    }
}

} // verus!
