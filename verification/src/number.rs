//! Number semantics of the value model.
//!
//! A `Number` is a decimal fixed-point quantity: the mathematical value is
//! `units / SCALE`, with nine fractional digits.  This representation keeps
//! enough precision to test integrality (which indices, slice bounds and
//! repeat counts require) while every operation stays exact integer
//! arithmetic.  Results that would leave the representable range are clamped
//! to the nearest representable value (saturation); division and
//! multiplication truncate toward zero at the ninth fractional digit.

use vstd::prelude::*;

verus! {

/// Number of units per 1: nine decimal fractional digits.
pub const SCALE: i64 = 1_000_000_000;

/// Magnitude of a mathematical integer.
pub open spec fn mag(x: int) -> int {
    if x < 0 {
        -x
    } else {
        x
    }
}

/// Division truncating toward zero (the sign-magnitude rule).
pub open spec fn tdiv(n: int, d: int) -> int {
    let q = mag(n) / mag(d);
    if (n < 0) != (d < 0) {
        -q
    } else {
        q
    }
}

/// Clamp a mathematical unit count into the representable `i64` range.
pub open spec fn clamp_units(x: int) -> int {
    if x > i64::MAX as int {
        i64::MAX as int
    } else if x < i64::MIN as int {
        i64::MIN as int
    } else {
        x
    }
}

/// Unit count of the sum of two numbers given by unit counts.
pub open spec fn n_add(x: int, y: int) -> int {
    clamp_units(x + y)
}

/// Unit count of the difference.
pub open spec fn n_sub(x: int, y: int) -> int {
    clamp_units(x - y)
}

/// Unit count of the product, truncated toward zero.
pub open spec fn n_mul(x: int, y: int) -> int {
    clamp_units(tdiv(x * y, SCALE as int))
}

/// Unit count of the quotient, truncated toward zero; meaningful for `y != 0`.
pub open spec fn n_div(x: int, y: int) -> int {
    clamp_units(tdiv(x * (SCALE as int), y))
}

/// Unit count of the negation.
pub open spec fn n_neg(x: int) -> int {
    clamp_units(-x)
}

/// Whether the number with unit count `x` is a whole number.
pub open spec fn whole(x: int) -> bool {
    x == (SCALE as int) * tdiv(x, SCALE as int)
}

/// The integer obtained by truncating the number with unit count `x` toward zero.
pub open spec fn n_trunc(x: int) -> int {
    tdiv(x, SCALE as int)
}

/// Unit count of the remainder: both operands are truncated to integers, and
/// the remainder has the magnitude of `|x'| mod |y'|` and the sign of the
/// dividend (the truncating-division convention); meaningful for
/// `n_trunc(y) != 0`.
pub open spec fn n_mod(x: int, y: int) -> int {
    let rm = mag(n_trunc(x)) % mag(n_trunc(y));
    (if n_trunc(x) < 0 {
        -rm
    } else {
        rm
    }) * (SCALE as int)
}

/// An immutable number of the value model: `units / SCALE`.
#[derive(Copy, Clone, Debug, PartialEq, Eq)]
pub struct Number {
    pub units: i64,
}

impl View for Number {
    type V = int;

    open spec fn view(&self) -> int {
        self.units as int
    }
}

/// Magnitude of an `i128` as a `u128`.
fn mag_i128(x: i128) -> (r: u128)
    ensures
        r as int == mag(x as int),
{
    if x >= 0 {
        x as u128
    } else {
        (-(x as i128 + 1)) as u128 + 1
    }
}

/// Clamp an exact `i128` unit count into `i64`.
fn clamp_to_units(v: i128) -> (r: i64)
    ensures
        r as int == clamp_units(v as int),
{
    if v > i64::MAX as i128 {
        i64::MAX
    } else if v < i64::MIN as i128 {
        i64::MIN
    } else {
        v as i64
    }
}

/// Truncating division on `i128`, for divisors that are not zero and
/// numerators above `i128::MIN` (all intermediates of the number model are).
fn tdiv_i128(n: i128, d: i128) -> (q: i128)
    requires
        d != 0,
        n > i128::MIN,
        d > i128::MIN,
    ensures
        q as int == tdiv(n as int, d as int),
        mag(q as int) <= mag(n as int),
{
    let nm = mag_i128(n);
    let dm = mag_i128(d);
    let qm = nm / dm;
    proof {
        assert(qm <= nm) by (nonlinear_arith)
            requires
                dm >= 1,
                qm == nm / dm,
        ;
    }
    if (n < 0) != (d < 0) {
        -(qm as i128)
    } else {
        qm as i128
    }
}

impl Number {
    /// The number with the given whole value (clamped if out of range).
    pub fn integer(i: i64) -> (r: Number)
        ensures
            r@ == clamp_units(i * (SCALE as int)),
    {
        proof {
            assert((i as int) * (SCALE as int) < i128::MAX as int && (i as int) * (SCALE as int)
                > i128::MIN as int) by (nonlinear_arith)
                requires
                    i64::MIN as int <= i as int <= i64::MAX as int,
            ;
        }
        Number { units: clamp_to_units((i as i128) * (SCALE as i128)) }
    }

    /// The number zero.
    pub fn zero() -> (r: Number)
        ensures
            r@ == 0,
    {
        Number { units: 0 }
    }

    /// Sum, saturating at the representable range.
    pub fn add(self, o: Number) -> (r: Number)
        ensures
            r@ == n_add(self@, o@),
    {
        Number { units: clamp_to_units(self.units as i128 + o.units as i128) }
    }

    /// Difference, saturating at the representable range.
    pub fn sub(self, o: Number) -> (r: Number)
        ensures
            r@ == n_sub(self@, o@),
    {
        Number { units: clamp_to_units(self.units as i128 - o.units as i128) }
    }

    /// Product, truncated toward zero, saturating at the representable range.
    pub fn mul(self, o: Number) -> (r: Number)
        ensures
            r@ == n_mul(self@, o@),
    {
        proof {
            assert((self.units as int) * (o.units as int) < i128::MAX as int
                && (self.units as int) * (o.units as int) > i128::MIN as int) by (nonlinear_arith)
                requires
                    i64::MIN as int <= self.units as int <= i64::MAX as int,
                    i64::MIN as int <= o.units as int <= i64::MAX as int,
            ;
        }
        let p: i128 = (self.units as i128) * (o.units as i128);
        Number { units: clamp_to_units(tdiv_i128(p, SCALE as i128)) }
    }

    /// Quotient, truncated toward zero, saturating at the representable range.
    pub fn div(self, o: Number) -> (r: Number)
        requires
            o@ != 0,
        ensures
            r@ == n_div(self@, o@),
    {
        proof {
            assert((self.units as int) * (SCALE as int) < i128::MAX as int && (self.units as int)
                * (SCALE as int) > i128::MIN as int) by (nonlinear_arith)
                requires
                    i64::MIN as int <= self.units as int <= i64::MAX as int,
            ;
        }
        let p: i128 = (self.units as i128) * (SCALE as i128);
        Number { units: clamp_to_units(tdiv_i128(p, o.units as i128)) }
    }

    /// Negation, saturating at the representable range.
    pub fn neg(self) -> (r: Number)
        ensures
            r@ == n_neg(self@),
    {
        Number { units: clamp_to_units(-(self.units as i128)) }
    }

    /// Whether this number is whole.
    pub fn is_whole(self) -> (r: bool)
        ensures
            r == whole(self@),
    {
        let t = self.trunc();
        t * SCALE == self.units
    }

    /// The whole part, truncated toward zero.
    pub fn trunc(self) -> (r: i64)
        ensures
            r as int == n_trunc(self@),
            mag(r as int) <= 9_223_372_036,
    {
        let q = tdiv_i128(self.units as i128, SCALE as i128);
        proof {
            let nm = mag(self.units as int);
            vstd::arithmetic::div_mod::lemma_fundamental_div_mod(nm, SCALE as int);
            vstd::arithmetic::div_mod::lemma_mod_bound(nm, SCALE as int);
            assert(nm == (SCALE as int) * (nm / (SCALE as int)) + nm % (SCALE as int));
            assert(nm / (SCALE as int) <= 9_223_372_036);
        }
        q as i64
    }

    /// Remainder after truncating both operands to integers; the result has
    /// the sign of the dividend.
    pub fn rem(self, o: Number) -> (r: Number)
        requires
            n_trunc(o@) != 0,
        ensures
            r@ == n_mod(self@, o@),
    {
        let ix = self.trunc();
        let iy = o.trunc();
        let im: u64 = if ix >= 0 {
            ix as u64
        } else {
            (-(ix as i128)) as u64
        };
        let dm: u64 = if iy >= 0 {
            iy as u64
        } else {
            (-(iy as i128)) as u64
        };
        let rm = im % dm;
        proof {
            assert(rm < dm);
            assert(dm as int == mag(n_trunc(o@)));
            assert(dm as int <= 9_223_372_036);
        }
        let signed: i64 = if ix < 0 {
            -(rm as i64)
        } else {
            rm as i64
        };
        Number { units: signed * SCALE }
    }
}

} // verus!
