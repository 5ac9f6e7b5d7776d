//! Geometry primitives: lengths, sizes, points, per-axis flags, writing
//! direction, and relative lengths.
//!
//! Lengths are measured in integer layout units. A region may offer unbounded
//! space along an axis, so a length is either finite or infinite. Finite
//! arithmetic saturates at the `i64` range instead of wrapping or panicking:
//! geometry this large is degenerate, and the algorithms above are required
//! never to panic on it.

use vstd::prelude::*;

verus! {

/// Clamps an unbounded integer into the `i64` range.
pub open spec fn sat64(x: int) -> int {
    if x > i64::MAX as int {
        i64::MAX as int
    } else if x < i64::MIN as int {
        i64::MIN as int
    } else {
        x
    }
}

/// Truncating division (the rounding of hardware division), for a positive
/// divisor. It differs from the mathematical (Euclidean) `/` on negative
/// dividends.
pub open spec fn tdiv(a: int, d: int) -> int
    recommends
        d >= 1,
{
    if a >= 0 {
        a / d
    } else {
        -((-a) / d)
    }
}

/// A length along one axis: finite (in integer layout units) or infinite.
#[derive(Clone, Copy, Debug, PartialEq, Eq, Structural)]
pub enum Abs {
    Fin(i64),
    Inf,
}

impl Abs {
    pub open spec fn is_fin(self) -> bool {
        self is Fin
    }

    pub open spec fn fin_val(self) -> int
        recommends
            self.is_fin(),
    {
        self->Fin_0 as int
    }

    /// Saturating addition; an infinite summand makes the sum infinite.
    pub open spec fn spec_plus(self, other: Abs) -> Abs {
        match (self, other) {
            (Abs::Fin(a), Abs::Fin(b)) => Abs::Fin(sat64(a + b) as i64),
            _ => Abs::Inf,
        }
    }

    /// Saturating subtraction. Offered space is never negatively infinite,
    /// so subtracting an infinite length saturates at the smallest finite
    /// value.
    pub open spec fn spec_minus(self, other: Abs) -> Abs {
        match (self, other) {
            (_, Abs::Inf) => Abs::Fin(i64::MIN),
            (Abs::Inf, Abs::Fin(_)) => Abs::Inf,
            (Abs::Fin(a), Abs::Fin(b)) => Abs::Fin(sat64(a - b) as i64),
        }
    }

    /// The larger of two lengths; infinity dominates.
    pub open spec fn spec_max_with(self, other: Abs) -> Abs {
        match (self, other) {
            (Abs::Fin(a), Abs::Fin(b)) => if a >= b {
                Abs::Fin(a)
            } else {
                Abs::Fin(b)
            },
            _ => Abs::Inf,
        }
    }

    pub fn zero() -> (r: Abs)
        ensures
            r == Abs::Fin(0),
    {
        Abs::Fin(0)
    }

    pub fn is_finite(&self) -> (r: bool)
        ensures
            r == self.is_fin(),
    {
        matches!(self, Abs::Fin(_))
    }

    pub fn plus(self, other: Abs) -> (r: Abs)
        ensures
            r == self.spec_plus(other),
    {
        match (self, other) {
            (Abs::Fin(a), Abs::Fin(b)) => match a.checked_add(b) {
                Some(v) => Abs::Fin(v),
                None => if b >= 0 {
                    Abs::Fin(i64::MAX)
                } else {
                    Abs::Fin(i64::MIN)
                },
            },
            _ => Abs::Inf,
        }
    }

    pub fn minus(self, other: Abs) -> (r: Abs)
        ensures
            r == self.spec_minus(other),
    {
        match (self, other) {
            (_, Abs::Inf) => Abs::Fin(i64::MIN),
            (Abs::Inf, Abs::Fin(_)) => Abs::Inf,
            (Abs::Fin(a), Abs::Fin(b)) => match a.checked_sub(b) {
                Some(v) => Abs::Fin(v),
                None => if b <= 0 {
                    Abs::Fin(i64::MAX)
                } else {
                    Abs::Fin(i64::MIN)
                },
            },
        }
    }

    pub fn max_with(self, other: Abs) -> (r: Abs)
        ensures
            r == self.spec_max_with(other),
    {
        match (self, other) {
            (Abs::Fin(a), Abs::Fin(b)) => if a >= b {
                Abs::Fin(a)
            } else {
                Abs::Fin(b)
            },
            _ => Abs::Inf,
        }
    }
}

/// A two-dimensional extent: a width and a height.
#[derive(Clone, Copy, Debug, PartialEq, Eq, Structural)]
pub struct Size {
    pub x: Abs,
    pub y: Abs,
}

impl Size {
    pub fn new(x: Abs, y: Abs) -> (r: Size)
        ensures
            r == (Size { x, y }),
    {
        Size { x, y }
    }
}

/// A position inside a frame, relative to its top-left corner.
#[derive(Clone, Copy, Debug, PartialEq, Eq, Structural)]
pub struct Point {
    pub x: Abs,
    pub y: Abs,
}

impl Point {
    /// A point on the horizontal axis.
    pub fn with_x(x: Abs) -> (r: Point)
        ensures
            r == (Point { x, y: Abs::Fin(0) }),
    {
        Point { x, y: Abs::Fin(0) }
    }
}

/// A pair of per-axis flags, such as the expand policy of a region.
#[derive(Clone, Copy, Debug, PartialEq, Eq, Structural)]
pub struct Axes {
    pub x: bool,
    pub y: bool,
}

impl Axes {
    pub fn new(x: bool, y: bool) -> (r: Axes)
        ensures
            r == (Axes { x, y }),
    {
        Axes { x, y }
    }
}

/// The horizontal writing direction.
#[derive(Clone, Copy, Debug, PartialEq, Eq, Structural)]
pub enum Dir {
    Ltr,
    Rtl,
}

impl Dir {
    /// Whether the direction points along the positive horizontal axis.
    pub open spec fn spec_is_positive(self) -> bool {
        self is Ltr
    }

    pub fn is_positive(self) -> (r: bool)
        ensures
            r == self.spec_is_positive(),
    {
        matches!(self, Dir::Ltr)
    }
}

/// A length relative to some base length: an absolute part plus a ratio of
/// the base, the ratio held in permyriad (one ten-thousandth).
#[derive(Clone, Copy, Debug, PartialEq, Eq, Structural)]
pub struct Rel {
    pub abs: i64,
    pub ratio: i64,
}

impl Rel {
    /// A purely absolute relative length.
    pub fn from_abs(abs: i64) -> (r: Rel)
        ensures
            r == (Rel { abs, ratio: 0 }),
    {
        Rel { abs, ratio: 0 }
    }

    /// Resolving against an infinite base gives an infinite length unless the
    /// ratio part is zero; against a finite base, the ratio part rounds
    /// toward zero.
    pub open spec fn spec_resolve(self, base: Abs) -> Abs {
        match base {
            Abs::Fin(b) => Abs::Fin(
                sat64(self.abs + tdiv(sat64(self.ratio * b), 10000)) as i64,
            ),
            Abs::Inf => if self.ratio == 0 {
                Abs::Fin(self.abs)
            } else {
                Abs::Inf
            },
        }
    }

    pub fn resolve(self, base: Abs) -> (r: Abs)
        ensures
            r == self.spec_resolve(base),
    {
        match base {
            Abs::Fin(b) => {
                let prod = match self.ratio.checked_mul(b) {
                    Some(v) => v,
                    None => if (self.ratio < 0) == (b < 0) {
                        i64::MAX
                    } else {
                        i64::MIN
                    },
                };
                proof {
                    lemma_sign_of_saturated_mul(self.ratio as int, b as int);
                }
                let q = match prod.checked_div(10000) {
                    Some(v) => v,
                    None => 0,
                };
                assert(q == tdiv(prod as int, 10000)) by {
                    lemma_tdiv_small(prod as int, 10000);
                };
                let r = match self.abs.checked_add(q) {
                    Some(v) => v,
                    None => if q >= 0 {
                        i64::MAX
                    } else {
                        i64::MIN
                    },
                };
                Abs::Fin(r)
            },
            Abs::Inf => if self.ratio == 0 {
                Abs::Fin(self.abs)
            } else {
                Abs::Inf
            },
        }
    }
}

/// The product of two `i64` values saturates toward the side its sign
/// dictates.
pub proof fn lemma_sign_of_saturated_mul(a: int, b: int)
    ensures
        (a >= 0 && b >= 0) || (a <= 0 && b <= 0) ==> a * b >= 0,
        (a <= 0 && b >= 0) || (a >= 0 && b <= 0) ==> a * b <= 0,
{
    assert((a >= 0 && b >= 0) || (a <= 0 && b <= 0) ==> a * b >= 0) by (nonlinear_arith);
    assert((a <= 0 && b >= 0) || (a >= 0 && b <= 0) ==> a * b <= 0) by (nonlinear_arith);
}

/// Truncating division by a positive divisor never leaves the dividend's
/// `i64` range.
proof fn lemma_tdiv_small(a: int, d: int)
    requires
        d >= 1,
        i64::MIN <= a <= i64::MAX,
    ensures
        i64::MIN <= tdiv(a, d) <= i64::MAX,
        a < 0 ==> tdiv(a, d) == ((a * -1) / d) * -1,
{
    if a >= 0 {
        assert(0 <= a / d <= a) by (nonlinear_arith)
            requires
                d >= 1,
                a >= 0,
        ;
    } else {
        assert(0 <= (-a) / d <= -a) by (nonlinear_arith)
            requires
                d >= 1,
                a < 0,
        ;
        assert(((a * -1) / d) * -1 == -((-a) / d));
    }
}

} // verus!
