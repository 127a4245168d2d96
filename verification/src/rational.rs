//! Exact rational arithmetic for reserve amounts, unit supplies and rates.
//!
//! A `Ratio` is a fraction of two `i128` machine words with a positive
//! denominator.  Both components are kept strictly below `RAT_BOUND`
//! (2^62) in magnitude, so every cross product of two well-formed values
//! fits comfortably in `i128` and comparisons never overflow.  Arithmetic
//! is not normalised: each checked operation returns the exact unreduced
//! fraction, or `None` when a component would leave the bound.
//!
//! The mathematical model of a `Ratio` is the ghost pair `Rat`, compared
//! by cross multiplication (`rat_eq`), so two fractions are equal exactly
//! when they denote the same rational number.

use vstd::prelude::*;

verus! {

/// Exclusive magnitude bound on the numerator and denominator of a
/// well-formed `Ratio` (2^62).
pub const RAT_BOUND: i128 = 0x4000_0000_0000_0000;

/// Mathematical model of a fraction: numerator `n` over denominator `d`.
pub ghost struct Rat {
    pub n: int,
    pub d: int,
}

/// A well-formed fraction: positive denominator, both components within
/// the magnitude bound.
pub open spec fn rat_wf(a: Rat) -> bool {
    &&& -(RAT_BOUND as int) < a.n < RAT_BOUND as int
    &&& 0 < a.d < RAT_BOUND as int
}

/// The fractions denote the same rational number (cross multiplication).
pub open spec fn rat_eq(a: Rat, b: Rat) -> bool {
    a.n * b.d == b.n * a.d
}

/// `a` denotes a strictly smaller rational than `b`; meaningful when both
/// denominators are positive.
pub open spec fn rat_lt(a: Rat, b: Rat) -> bool {
    a.n * b.d < b.n * a.d
}

/// `a` denotes a rational no larger than `b`; meaningful when both
/// denominators are positive.
pub open spec fn rat_le(a: Rat, b: Rat) -> bool {
    a.n * b.d <= b.n * a.d
}

/// The fraction denotes a strictly positive rational; meaningful when the
/// denominator is positive.
pub open spec fn rat_is_pos(a: Rat) -> bool {
    a.n > 0
}

/// Exact sum of two fractions.
pub open spec fn rat_add(a: Rat, b: Rat) -> Rat {
    Rat { n: a.n * b.d + b.n * a.d, d: a.d * b.d }
}

/// Exact difference of two fractions.
pub open spec fn rat_sub(a: Rat, b: Rat) -> Rat {
    Rat { n: a.n * b.d - b.n * a.d, d: a.d * b.d }
}

/// Exact product of two fractions.
pub open spec fn rat_mul(a: Rat, b: Rat) -> Rat {
    Rat { n: a.n * b.n, d: a.d * b.d }
}

/// Exact quotient of two fractions; meaningful when `b` is positive, which
/// keeps the resulting denominator positive.
pub open spec fn rat_div(a: Rat, b: Rat) -> Rat {
    Rat { n: a.n * b.d, d: a.d * b.n }
}

/// Absolute value of a fraction.
pub open spec fn rat_abs(a: Rat) -> Rat {
    Rat { n: if a.n < 0 { -a.n } else { a.n }, d: a.d }
}

/// The fraction one.
pub open spec fn rat_one() -> Rat {
    Rat { n: 1, d: 1 }
}

/// The fraction `n/1`.
pub open spec fn rat_from_int(n: int) -> Rat {
    Rat { n: n, d: 1 }
}

/// The fraction `num/den` brought to a positive denominator.
pub open spec fn rat_new_spec(num: int, den: int) -> Rat {
    if den < 0 {
        Rat { n: -num, d: -den }
    } else {
        Rat { n: num, d: den }
    }
}

/// A product of two components within the bound stays well inside `i128`.
proof fn lemma_mul_in_range(a: int, b: int)
    by (nonlinear_arith)
    requires
        -0x4000_0000_0000_0000 < a < 0x4000_0000_0000_0000,
        -0x4000_0000_0000_0000 < b < 0x4000_0000_0000_0000,
    ensures
        -0x1000_0000_0000_0000_0000_0000_0000_0000 < a * b
            < 0x1000_0000_0000_0000_0000_0000_0000_0000,
{
}

/// A product of two positive integers is positive.
pub proof fn lemma_pos_mul(a: int, b: int)
    by (nonlinear_arith)
    requires
        a > 0,
        b > 0,
    ensures
        a * b > 0,
        b * a > 0,
{
}

/// A product of a non-negative and a positive integer is non-negative.
pub proof fn lemma_nonneg_mul(a: int, b: int)
    by (nonlinear_arith)
    requires
        a >= 0,
        b > 0,
    ensures
        a * b >= 0,
        b * a >= 0,
{
}

/// Denoting the same rational number is transitive among fractions with
/// positive denominators.
pub proof fn lemma_rat_eq_trans(a: Rat, b: Rat, c: Rat)
    by (nonlinear_arith)
    requires
        a.d > 0,
        b.d > 0,
        c.d > 0,
        rat_eq(a, b),
        rat_eq(b, c),
    ensures
        rat_eq(a, c),
{
}

/// Two fractions with the same model are the same value: the model keeps
/// both machine words exactly.
pub proof fn lemma_ratio_view_injective(a: Ratio, b: Ratio)
    requires
        a@ == b@,
    ensures
        a == b,
{
    assert(a.n == b.n);
    assert(a.d == b.d);
}

/// An exact fraction held in two bounded machine words.
#[derive(Clone, Copy, Debug)]
pub struct Ratio {
    n: i128,
    d: i128,
}

impl View for Ratio {
    type V = Rat;

    closed spec fn view(&self) -> Rat {
        Rat { n: self.n as int, d: self.d as int }
    }
}

impl Ratio {
    /// Builds the fraction `num/den`.  Returns `None` exactly when the
    /// denominator is zero or a component is out of the representable
    /// bound.
    pub fn new(num: i128, den: i128) -> (r: Option<Ratio>)
        ensures
            r is Some <==> den != 0 && -RAT_BOUND < num < RAT_BOUND && -RAT_BOUND < den
                < RAT_BOUND,
            r matches Some(q) ==> q@ == rat_new_spec(num as int, den as int) && rat_wf(q@),
    {
        if den != 0 && -RAT_BOUND < num && num < RAT_BOUND && -RAT_BOUND < den && den < RAT_BOUND {
            if den < 0 {
                Some(Ratio { n: -num, d: -den })
            } else {
                Some(Ratio { n: num, d: den })
            }
        } else {
            None
        }
    }

    /// Builds the fraction `num/den` from small components with a
    /// positive denominator.
    pub fn from_frac(num: i32, den: i32) -> (r: Ratio)
        requires
            den > 0,
        ensures
            r@ == rat_new_spec(num as int, den as int),
            rat_wf(r@),
    {
        Ratio { n: num as i128, d: den as i128 }
    }

    /// Builds the whole number `value/1`.
    pub fn from_int(value: i32) -> (r: Ratio)
        ensures
            r@ == rat_from_int(value as int),
            rat_wf(r@),
    {
        Ratio { n: value as i128, d: 1 }
    }

    /// Exact sum; `None` exactly when a component of the unreduced result
    /// would leave the bound.
    pub fn checked_add(&self, other: &Ratio) -> (r: Option<Ratio>)
        requires
            rat_wf(self@),
            rat_wf(other@),
        ensures
            r is Some <==> rat_wf(rat_add(self@, other@)),
            r matches Some(q) ==> q@ == rat_add(self@, other@) && rat_wf(q@),
    {
        proof {
            lemma_mul_in_range(self.n as int, other.d as int);
            lemma_mul_in_range(other.n as int, self.d as int);
            lemma_mul_in_range(self.d as int, other.d as int);
            lemma_pos_mul(self.d as int, other.d as int);
        }
        let n: i128 = self.n * other.d + other.n * self.d;
        let d: i128 = self.d * other.d;
        if -RAT_BOUND < n && n < RAT_BOUND && d < RAT_BOUND {
            Some(Ratio { n, d })
        } else {
            None
        }
    }

    /// Exact difference; `None` exactly when a component of the unreduced
    /// result would leave the bound.
    pub fn checked_sub(&self, other: &Ratio) -> (r: Option<Ratio>)
        requires
            rat_wf(self@),
            rat_wf(other@),
        ensures
            r is Some <==> rat_wf(rat_sub(self@, other@)),
            r matches Some(q) ==> q@ == rat_sub(self@, other@) && rat_wf(q@),
    {
        proof {
            lemma_mul_in_range(self.n as int, other.d as int);
            lemma_mul_in_range(other.n as int, self.d as int);
            lemma_mul_in_range(self.d as int, other.d as int);
            lemma_pos_mul(self.d as int, other.d as int);
        }
        let n: i128 = self.n * other.d - other.n * self.d;
        let d: i128 = self.d * other.d;
        if -RAT_BOUND < n && n < RAT_BOUND && d < RAT_BOUND {
            Some(Ratio { n, d })
        } else {
            None
        }
    }

    /// Exact product; `None` exactly when a component of the unreduced
    /// result would leave the bound.
    pub fn checked_mul(&self, other: &Ratio) -> (r: Option<Ratio>)
        requires
            rat_wf(self@),
            rat_wf(other@),
        ensures
            r is Some <==> rat_wf(rat_mul(self@, other@)),
            r matches Some(q) ==> q@ == rat_mul(self@, other@) && rat_wf(q@),
    {
        proof {
            lemma_mul_in_range(self.n as int, other.n as int);
            lemma_mul_in_range(self.d as int, other.d as int);
            lemma_pos_mul(self.d as int, other.d as int);
        }
        let n: i128 = self.n * other.n;
        let d: i128 = self.d * other.d;
        if -RAT_BOUND < n && n < RAT_BOUND && d < RAT_BOUND {
            Some(Ratio { n, d })
        } else {
            None
        }
    }

    /// Exact quotient by a positive fraction; `None` exactly when a
    /// component of the unreduced result would leave the bound.
    pub fn checked_div(&self, other: &Ratio) -> (r: Option<Ratio>)
        requires
            rat_wf(self@),
            rat_wf(other@),
            rat_is_pos(other@),
        ensures
            r is Some <==> rat_wf(rat_div(self@, other@)),
            r matches Some(q) ==> q@ == rat_div(self@, other@) && rat_wf(q@),
    {
        proof {
            lemma_mul_in_range(self.n as int, other.d as int);
            lemma_mul_in_range(self.d as int, other.n as int);
            lemma_pos_mul(self.d as int, other.n as int);
        }
        let n: i128 = self.n * other.d;
        let d: i128 = self.d * other.n;
        if -RAT_BOUND < n && n < RAT_BOUND && d < RAT_BOUND {
            Some(Ratio { n, d })
        } else {
            None
        }
    }

    /// Absolute value.
    pub fn abs(&self) -> (r: Ratio)
        requires
            rat_wf(self@),
        ensures
            r@ == rat_abs(self@),
            rat_wf(r@),
    {
        if self.n < 0 {
            Ratio { n: -self.n, d: self.d }
        } else {
            *self
        }
    }

    /// Strict comparison of the denoted rationals.
    pub fn lt(&self, other: &Ratio) -> (r: bool)
        requires
            rat_wf(self@),
            rat_wf(other@),
        ensures
            r == rat_lt(self@, other@),
    {
        proof {
            lemma_mul_in_range(self.n as int, other.d as int);
            lemma_mul_in_range(other.n as int, self.d as int);
        }
        self.n * other.d < other.n * self.d
    }

    /// Whether the two fractions denote the same rational number.
    pub fn same_value(&self, other: &Ratio) -> (r: bool)
        requires
            rat_wf(self@),
            rat_wf(other@),
        ensures
            r == rat_eq(self@, other@),
    {
        proof {
            lemma_mul_in_range(self.n as int, other.d as int);
            lemma_mul_in_range(other.n as int, self.d as int);
        }
        self.n * other.d == other.n * self.d
    }

    /// Whether the fraction denotes a strictly positive rational.
    pub fn is_pos(&self) -> (r: bool)
        requires
            rat_wf(self@),
        ensures
            r == rat_is_pos(self@),
    {
        self.n > 0
    }
}

} // verus!
