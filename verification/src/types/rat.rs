use vstd::prelude::*;
use crate::types::Order;

verus! {

/// Bound on the numerator of a `Rat`. Every rational built by this crate's
/// intersection math from coordinates within `COORD_BOUND` fits it.
pub const RAT_NUM_BOUND: i128 = 1_000_000_000_000_000_000_000;

/// Bound on the (positive) denominator of a `Rat`.
pub const RAT_DEN_BOUND: i128 = 1_000_000_000_000_000;

/// An exact rational number `num / den`. The denominator is kept strictly
/// positive, so ordering two values reduces to comparing cross products.
/// Values are not reduced to lowest terms; equality of values is `eq_spec`
/// (cross-multiplied), not field equality.
#[derive(Clone, Copy, Debug, PartialEq, Eq, Structural)]
pub struct Rat {
    pub num: i128,
    pub den: i128,
}

impl Rat {
    /// A representation is well formed when the denominator is positive and
    /// both fields are small enough that cross products fit `i128`.
    pub open spec fn wf(self) -> bool {
        &&& 0 < self.den <= RAT_DEN_BOUND
        &&& -RAT_NUM_BOUND <= self.num <= RAT_NUM_BOUND
    }

    /// The value of `self` is at most the value of `other`.
    pub open spec fn le_spec(self, other: Rat) -> bool {
        self.num * other.den <= other.num * self.den
    }

    /// The value of `self` is strictly below the value of `other`.
    pub open spec fn lt_spec(self, other: Rat) -> bool {
        self.num * other.den < other.num * self.den
    }

    /// `self` and `other` denote the same rational value.
    pub open spec fn eq_spec(self, other: Rat) -> bool {
        self.num * other.den == other.num * self.den
    }

    /// The integer `v` as a rational.
    pub fn from_int(v: i64) -> (r: Rat)
        ensures
            r.wf(),
            r.num == v as int,
            r.den == 1,
    {
        Rat { num: v as i128, den: 1 }
    }

    pub fn le(&self, other: &Rat) -> (r: bool)
        requires
            self.wf(),
            other.wf(),
        ensures
            r == self.le_spec(*other),
    {
        proof {
            lemma_mul_in_bound(self.num as int, other.den as int, RAT_NUM_BOUND as int, RAT_DEN_BOUND as int);
            lemma_mul_in_bound(other.num as int, self.den as int, RAT_NUM_BOUND as int, RAT_DEN_BOUND as int);
        }
        self.num * other.den <= other.num * self.den
    }

    /// Exact three-way comparison of the two rational values.
    pub fn cmp_rat(&self, other: &Rat) -> (r: Order)
        requires
            self.wf(),
            other.wf(),
        ensures
            r == Order::Less <==> self.lt_spec(*other),
            r == Order::Equal <==> self.eq_spec(*other),
            r == Order::Greater <==> other.lt_spec(*self),
    {
        proof {
            lemma_mul_in_bound(self.num as int, other.den as int, RAT_NUM_BOUND as int, RAT_DEN_BOUND as int);
            lemma_mul_in_bound(other.num as int, self.den as int, RAT_NUM_BOUND as int, RAT_DEN_BOUND as int);
        }
        let left: i128 = self.num * other.den;
        let right: i128 = other.num * self.den;
        if left < right {
            Order::Less
        } else if left == right {
            Order::Equal
        } else {
            Order::Greater
        }
    }

    /// Equality of values, not of representations.
    pub fn eq_rat(&self, other: &Rat) -> (r: bool)
        requires
            self.wf(),
            other.wf(),
        ensures
            r == self.eq_spec(*other),
    {
        proof {
            lemma_mul_in_bound(self.num as int, other.den as int, RAT_NUM_BOUND as int, RAT_DEN_BOUND as int);
            lemma_mul_in_bound(other.num as int, self.den as int, RAT_NUM_BOUND as int, RAT_DEN_BOUND as int);
        }
        self.num * other.den == other.num * self.den
    }
}

/// A product of two factors within the given magnitudes stays within the
/// product of the magnitudes.
pub proof fn lemma_mul_in_bound(a: int, b: int, ab: int, bb: int)
    by (nonlinear_arith)
    requires
        -ab <= a <= ab,
        -bb <= b <= bb,
        0 <= ab,
        0 <= bb,
    ensures
        -(ab * bb) <= a * b <= ab * bb,
{
}

/// `<=` on rational values is transitive.
pub proof fn lemma_rat_le_trans(p: Rat, q: Rat, r: Rat)
    by (nonlinear_arith)
    requires
        0 < p.den,
        0 < q.den,
        0 < r.den,
        p.le_spec(q),
        q.le_spec(r),
    ensures
        p.le_spec(r),
{
}

/// `<` on rational values is transitive.
pub proof fn lemma_rat_lt_trans(p: Rat, q: Rat, r: Rat)
    by (nonlinear_arith)
    requires
        0 < p.den,
        0 < q.den,
        0 < r.den,
        p.lt_spec(q),
        q.lt_spec(r),
    ensures
        p.lt_spec(r),
{
}

/// A strict bound survives replacing the right side by an equal value.
pub proof fn lemma_rat_lt_eq_trans(p: Rat, q: Rat, r: Rat)
    by (nonlinear_arith)
    requires
        0 < p.den,
        0 < q.den,
        0 < r.den,
        p.lt_spec(q),
        q.eq_spec(r),
    ensures
        p.lt_spec(r),
{
}

/// A strict bound survives replacing the left side by an equal value.
pub proof fn lemma_rat_eq_lt_trans(p: Rat, q: Rat, r: Rat)
    by (nonlinear_arith)
    requires
        0 < p.den,
        0 < q.den,
        0 < r.den,
        p.eq_spec(q),
        q.lt_spec(r),
    ensures
        p.lt_spec(r),
{
}

/// Equality of rational values is transitive.
pub proof fn lemma_rat_eq_trans(p: Rat, q: Rat, r: Rat)
    by (nonlinear_arith)
    requires
        0 < p.den,
        0 < q.den,
        0 < r.den,
        p.eq_spec(q),
        q.eq_spec(r),
    ensures
        p.eq_spec(r),
{
}

} // verus!
