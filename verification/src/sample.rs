use vstd::prelude::*;

verus! {

/// The arithmetic that the nodes need from a sample type.
///
/// Every operation is total and is a function of its operands: the spec
/// function beside each method says which value the method returns. The nodes'
/// contracts are stated over these spec functions, so they hold of whatever
/// arithmetic a sample type brings (exact, saturating, rounding).
pub trait Sample: Copy + Send {
    /// The sample that stands for the whole number `n`.
    spec fn of_int(n: i32) -> Self;

    /// The sample that stands for the count `n`.
    spec fn of_index(n: usize) -> Self;

    /// What `plus` gives: `self + rhs`.
    spec fn sum(self, rhs: Self) -> Self;

    /// What `minus` gives: `self - rhs`.
    spec fn difference(self, rhs: Self) -> Self;

    /// What `times` gives: `self * rhs`.
    spec fn product(self, rhs: Self) -> Self;

    /// What `over` gives: `self / rhs`.
    spec fn quotient(self, rhs: Self) -> Self;

    /// What `negate` gives: `-self`.
    spec fn negation(self) -> Self;

    /// What `below` gives: `self < rhs`.
    spec fn is_below(self, rhs: Self) -> bool;

    /// What `at_least` gives: `self >= rhs`.
    spec fn is_at_least(self, rhs: Self) -> bool;

    /// The sample that stands for the whole number `n`.
    fn from_int(n: i32) -> (r: Self)
        ensures
            r == Self::of_int(n),
    ;

    /// The sample that stands for the count `n`.
    fn from_index(n: usize) -> (r: Self)
        ensures
            r == Self::of_index(n),
    ;

    /// `self + rhs`.
    fn plus(self, rhs: Self) -> (r: Self)
        ensures
            r == self.sum(rhs),
    ;

    /// `self - rhs`.
    fn minus(self, rhs: Self) -> (r: Self)
        ensures
            r == self.difference(rhs),
    ;

    /// `self * rhs`.
    fn times(self, rhs: Self) -> (r: Self)
        ensures
            r == self.product(rhs),
    ;

    /// `self / rhs`.
    fn over(self, rhs: Self) -> (r: Self)
        ensures
            r == self.quotient(rhs),
    ;

    /// `-self`.
    fn negate(self) -> (r: Self)
        ensures
            r == self.negation(),
    ;

    /// `self < rhs`.
    fn below(self, rhs: Self) -> (b: bool)
        ensures
            b == self.is_below(rhs),
    ;

    /// `self >= rhs`.
    fn at_least(self, rhs: Self) -> (b: bool)
        ensures
            b == self.is_at_least(rhs),
    ;
}

/// What the precise oscillator and the spectral transform need beyond
/// `Sample`.
pub trait Trig: Sample {
    /// The sine of `self`, an angle in radians.
    spec fn sine(self) -> Self;

    /// The cosine of `self`, an angle in radians.
    spec fn cosine(self) -> Self;

    /// The number π.
    spec fn pi_value() -> Self;

    /// No sine is below -1 or above 1.
    proof fn sine_is_bounded(x: Self)
        ensures
            !x.sine().is_below(Self::of_int((-1) as i32)),
            !Self::of_int(1).is_below(x.sine()),
    ;

    /// The sine of `self`.
    fn sin(self) -> (r: Self)
        ensures
            r == self.sine(),
    ;

    /// The cosine of `self`.
    fn cos(self) -> (r: Self)
        ensures
            r == self.cosine(),
    ;

    /// The number π.
    fn pi() -> (r: Self)
        ensures
            r == Self::pi_value(),
    ;
}

/// `v` brought into the range of `i64`.
pub open spec fn clamp_i64(v: int) -> i64 {
    if v < i64::MIN {
        i64::MIN
    } else if v > i64::MAX {
        i64::MAX
    } else {
        v as i64
    }
}

/// The distance of `v` from zero.
pub open spec fn magnitude(v: int) -> int {
    if v < 0 {
        -v
    } else {
        v
    }
}

/// The quotient of `a` by `b` rounded towards zero; `b` is not zero.
pub open spec fn div_towards_zero(a: int, b: int) -> int {
    if (a < 0) == (b < 0) {
        magnitude(a) / magnitude(b)
    } else {
        -(magnitude(a) / magnitude(b))
    }
}

fn saturate(v: i128) -> (r: i64)
    ensures
        r == clamp_i64(v as int),
{
    if v < i64::MIN as i128 {
        i64::MIN
    } else if v > i64::MAX as i128 {
        i64::MAX
    } else {
        v as i64
    }
}

/// Whole-number samples with saturating arithmetic: a result or a count beyond
/// the range of `i64` becomes the nearest bound, a quotient is rounded towards zero, and
/// a division by zero gives the bound on the dividend's side (zero for zero).
impl Sample for i64 {
    open spec fn of_int(n: i32) -> i64 {
        n as i64
    }

    open spec fn of_index(n: usize) -> i64 {
        clamp_i64(n as int)
    }

    open spec fn sum(self, rhs: i64) -> i64 {
        clamp_i64(self + rhs)
    }

    open spec fn difference(self, rhs: i64) -> i64 {
        clamp_i64(self - rhs)
    }

    open spec fn product(self, rhs: i64) -> i64 {
        clamp_i64(self * rhs)
    }

    open spec fn quotient(self, rhs: i64) -> i64 {
        if rhs == 0 {
            if self > 0 {
                i64::MAX
            } else if self < 0 {
                i64::MIN
            } else {
                0
            }
        } else {
            clamp_i64(div_towards_zero(self as int, rhs as int))
        }
    }

    open spec fn negation(self) -> i64 {
        clamp_i64(-self)
    }

    open spec fn is_below(self, rhs: i64) -> bool {
        self < rhs
    }

    open spec fn is_at_least(self, rhs: i64) -> bool {
        self >= rhs
    }

    fn from_int(n: i32) -> (r: i64) {
        n as i64
    }

    fn from_index(n: usize) -> (r: i64) {
        saturate(n as i128)
    }

    fn plus(self, rhs: i64) -> (r: i64) {
        saturate(self as i128 + rhs as i128)
    }

    fn minus(self, rhs: i64) -> (r: i64) {
        saturate(self as i128 - rhs as i128)
    }

    fn times(self, rhs: i64) -> (r: i64) {
        assert(-0x4000_0000_0000_0000_0000_0000_0000_0000 <= self * rhs
            <= 0x4000_0000_0000_0000_0000_0000_0000_0000) by (nonlinear_arith)
            requires
                -0x8000_0000_0000_0000 <= self < 0x8000_0000_0000_0000,
                -0x8000_0000_0000_0000 <= rhs < 0x8000_0000_0000_0000,
        ;
        saturate(self as i128 * rhs as i128)
    }

    fn over(self, rhs: i64) -> (r: i64) {
        if rhs == 0 {
            if self > 0 {
                i64::MAX
            } else if self < 0 {
                i64::MIN
            } else {
                0
            }
        } else {
            let a: i128 = if self < 0 { -(self as i128) } else { self as i128 };
            let b: i128 = if rhs < 0 { -(rhs as i128) } else { rhs as i128 };
            proof {
                vstd::arithmetic::div_mod::lemma_div_pos_is_pos(a as int, b as int);
                vstd::arithmetic::div_mod::lemma_div_nonincreasing(a as int, b as int);
            }
            let q: i128 = a / b;
            if (self < 0) == (rhs < 0) {
                saturate(q)
            } else {
                saturate(-q)
            }
        }
    }

    fn negate(self) -> (r: i64) {
        saturate(-(self as i128))
    }

    fn below(self, rhs: i64) -> (b: bool) {
        self < rhs
    }

    fn at_least(self, rhs: i64) -> (b: bool) {
        self >= rhs
    }
}

/// Trigonometry on whole-number samples, rounded towards zero like the
/// quotient. The sine of a whole number of radians is 0 at 0 and lies strictly
/// between -1 and 1 elsewhere, so it is always 0 here; the cosine is 1 at the
/// angle 0 and 0 elsewhere; π is 3.
impl Trig for i64 {
    open spec fn sine(self) -> i64 {
        0
    }

    open spec fn cosine(self) -> i64 {
        if self == 0 {
            1
        } else {
            0
        }
    }

    open spec fn pi_value() -> i64 {
        3
    }

    proof fn sine_is_bounded(x: i64) {
    }

    fn sin(self) -> (r: i64) {
        0
    }

    fn cos(self) -> (r: i64) {
        if self == 0 {
            1
        } else {
            0
        }
    }

    fn pi() -> (r: i64) {
        3
    }
}

} // verus!
