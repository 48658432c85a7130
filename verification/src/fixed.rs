use vstd::prelude::*;
use crate::scalar::CfdScalar;
use crate::scalar::zero_arith_laws;

verus! {

/// Magnitude units per whole number: the scalar carries 32 fractional bits.
pub const SCALE: u64 = 4294967296;

/// A saturating sign-and-magnitude fixed-point scalar with 32 fractional
/// bits. A value stands for `mag / SCALE`, negated when `neg` is set; every
/// operation returns a canonical value (zero is never marked negative) and
/// clamps an out-of-range magnitude to the largest one, so the arithmetic is
/// total and never panics.
#[derive(Clone, Copy, PartialEq, Eq, Structural, Debug)]
pub struct Fixed {
    neg: bool,
    mag: u64,
}

impl Fixed {
    /// The signed magnitude this value stands for, in units of `1 / SCALE`.
    pub closed spec fn val(self) -> int {
        if self.neg {
            -(self.mag as int)
        } else {
            self.mag as int
        }
    }

    /// The canonical value standing for the signed magnitude `v`, clamped
    /// into the representable range.
    pub closed spec fn fix_of(v: int) -> Fixed {
        if v >= 0 {
            if v > u64::MAX as int {
                Fixed { neg: false, mag: u64::MAX }
            } else {
                Fixed { neg: false, mag: v as u64 }
            }
        } else {
            if -v > u64::MAX as int {
                Fixed { neg: true, mag: u64::MAX }
            } else {
                Fixed { neg: true, mag: (-v) as u64 }
            }
        }
    }

    /// The canonical value with sign `neg` and magnitude `q`, clamped.
    pub closed spec fn signed_mag(neg: bool, q: int) -> Fixed {
        if q <= 0 {
            Fixed { neg: false, mag: 0 }
        } else if q > u64::MAX as int {
            Fixed { neg, mag: u64::MAX }
        } else {
            Fixed { neg, mag: q as u64 }
        }
    }

    /// Builds the canonical value for a clamped 128-bit magnitude.
    fn from_wide_mag(neg: bool, q: u128) -> (r: Fixed)
        ensures
            r == Fixed::signed_mag(neg, q as int),
    {
        if q == 0 {
            Fixed { neg: false, mag: 0 }
        } else if q > u64::MAX as u128 {
            Fixed { neg, mag: u64::MAX }
        } else {
            Fixed { neg, mag: q as u64 }
        }
    }
}

impl CfdScalar for Fixed {
    closed spec fn zero_spec() -> Self {
        Fixed { neg: false, mag: 0 }
    }

    closed spec fn one_spec() -> Self {
        Fixed { neg: false, mag: SCALE }
    }

    closed spec fn add_spec(a: Self, b: Self) -> Self {
        Fixed::fix_of(a.val() + b.val())
    }

    closed spec fn sub_spec(a: Self, b: Self) -> Self {
        Fixed::fix_of(a.val() - b.val())
    }

    closed spec fn mul_spec(a: Self, b: Self) -> Self {
        Fixed::signed_mag(a.neg != b.neg, (a.mag as int * b.mag as int) / (SCALE as int))
    }

    closed spec fn div_spec(a: Self, b: Self) -> Self {
        if b.mag == 0 {
            Fixed { neg: false, mag: 0 }
        } else {
            Fixed::signed_mag(a.neg != b.neg, (a.mag as int * SCALE as int) / (b.mag as int))
        }
    }

    closed spec fn neg_spec(a: Self) -> Self {
        if a.mag == 0 {
            Fixed { neg: false, mag: 0 }
        } else {
            Fixed { neg: !a.neg, mag: a.mag }
        }
    }

    closed spec fn is_pos_spec(a: Self) -> bool {
        !a.neg && a.mag > 0
    }

    closed spec fn from_usize_spec(n: usize) -> Self {
        Fixed::signed_mag(false, n as int * SCALE as int)
    }

    fn zero() -> (r: Self) {
        Fixed { neg: false, mag: 0 }
    }

    fn one() -> (r: Self) {
        Fixed { neg: false, mag: SCALE }
    }

    fn add(a: Self, b: Self) -> (r: Self) {
        if a.neg == b.neg {
            let m: u64 = if a.mag <= u64::MAX - b.mag {
                a.mag + b.mag
            } else {
                u64::MAX
            };
            Fixed { neg: a.neg && m != 0, mag: m }
        } else if a.mag >= b.mag {
            let m: u64 = a.mag - b.mag;
            Fixed { neg: a.neg && m != 0, mag: m }
        } else {
            Fixed { neg: b.neg, mag: b.mag - a.mag }
        }
    }

    fn sub(a: Self, b: Self) -> (r: Self) {
        Self::add(a, Self::neg(b))
    }

    fn mul(a: Self, b: Self) -> (r: Self) {
        proof {
            assert((a.mag as int) * (b.mag as int) <= (u64::MAX as int) * (u64::MAX as int))
                by (nonlinear_arith)
                requires
                    a.mag <= u64::MAX,
                    b.mag <= u64::MAX,
            ;
        }
        let p: u128 = (a.mag as u128) * (b.mag as u128);
        let q: u128 = p / (SCALE as u128);
        proof {
            assert((a.mag as int * b.mag as int) / (SCALE as int) == q as int);
        }
        Fixed::from_wide_mag(a.neg != b.neg, q)
    }

    fn div(a: Self, b: Self) -> (r: Self) {
        if b.mag == 0 {
            Fixed { neg: false, mag: 0 }
        } else {
            let p: u128 = (a.mag as u128) * (SCALE as u128);
            let q: u128 = p / (b.mag as u128);
            proof {
                assert((a.mag as int * SCALE as int) / (b.mag as int) == q as int);
            }
            Fixed::from_wide_mag(a.neg != b.neg, q)
        }
    }

    fn neg(a: Self) -> (r: Self) {
        if a.mag == 0 {
            Fixed { neg: false, mag: 0 }
        } else {
            Fixed { neg: !a.neg, mag: a.mag }
        }
    }

    fn is_pos(a: Self) -> (r: bool) {
        !a.neg && a.mag > 0
    }

    fn from_usize(n: usize) -> (r: Self) {
        let p: u128 = (n as u128) * (SCALE as u128);
        Fixed::from_wide_mag(false, p)
    }
}

/// Zero is inert for this scalar: sums, differences, negations, products,
/// and quotients of zeros are zero, and zero absorbs any factor or divisor.
pub proof fn lemma_fixed_zero_laws()
    ensures
        zero_arith_laws::<Fixed>(),
{
    assert forall|a: Fixed| #[trigger] Fixed::mul_spec(Fixed::zero_spec(), a)
        == Fixed::zero_spec() by {
        assert((0int * a.mag as int) / (SCALE as int) == 0);
    }
    assert forall|a: Fixed| #[trigger] Fixed::mul_spec(a, Fixed::zero_spec())
        == Fixed::zero_spec() by {
        assert((a.mag as int * 0int) / (SCALE as int) == 0);
    }
    assert forall|a: Fixed| #[trigger] Fixed::div_spec(Fixed::zero_spec(), a)
        == Fixed::zero_spec() by {
        if a.mag != 0 {
            assert((0int * SCALE as int) / (a.mag as int) == 0);
        }
    }
}

} // verus!
