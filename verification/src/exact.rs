//! The numbers behind the patterns.
//!
//! A finite single-precision number is a whole multiple of 2^-149, the least
//! positive number of the format. This module names that multiple, shows
//! that the order of the patterns' ranks is the order of the numbers, and
//! states the geometry of a bounding box in exact arithmetic: where its
//! center lies and when its diagonal is zero. The rounded center and
//! diagonal, as floating-point arithmetic gives them, are not computed here.
use vstd::prelude::*;
use vstd::arithmetic::power2::{
    lemma2_to64, lemma_pow2_pos, lemma_pow2_strictly_increases, lemma_pow2_unfold, pow2,
};
use crate::model::{
    coordinates, lemma_box_corners_are_coordinates, lemma_box_is_ordered, lemma_box_is_point,
    BoundingBox, Vector3,
};
use crate::scalar::{has_number, Scalar, INFINITY_BITS, SIGN_BIT};

verus! {

/// The number of patterns that share one exponent: 2^23.
pub const FRACTIONS: u32 = 0x80_0000;

/// What a magnitude stands for, in units of 2^-149. With `e` the exponent
/// field and `f` the fraction field: `f` units where `e` is 0, and else
/// `(2^23 + f) * 2^(e - 1)`.
pub open spec fn units_of_magnitude(magnitude: int) -> int {
    let e = magnitude / (FRACTIONS as int);
    let f = magnitude % (FRACTIONS as int);
    if e == 0 {
        f
    } else {
        (FRACTIONS + f) * pow2((e - 1) as nat)
    }
}

impl Scalar {
    /// The pattern is a number other than an infinity.
    pub open spec fn is_finite(self) -> bool {
        self.magnitude() < INFINITY_BITS
    }

    /// The number that a finite pattern stands for, in units of 2^-149.
    pub open spec fn units(self) -> int {
        if self.is_negative() {
            -units_of_magnitude(self.magnitude())
        } else {
            units_of_magnitude(self.magnitude())
        }
    }
}

impl Scalar {
    /// Twice the number, which is exact in this format: a finite number
    /// whose double is still finite is doubled without rounding, a greater
    /// one becomes the infinity of its sign, and an infinity or a NaN stays
    /// what it is.
    pub open spec fn spec_doubled(self) -> Scalar {
        let m = self.magnitude();
        if m >= INFINITY_BITS {
            self
        } else if m < FRACTIONS {
            Scalar { bits: (self.bits + m) as u32 }
        } else if m + FRACTIONS >= INFINITY_BITS {
            Scalar { bits: (self.bits - m + INFINITY_BITS) as u32 }
        } else {
            Scalar { bits: (self.bits + FRACTIONS) as u32 }
        }
    }

    #[verifier::when_used_as_spec(spec_doubled)]
    pub fn doubled(self) -> (r: Scalar)
        ensures
            r == self.spec_doubled(),
            r.is_negative() == self.is_negative(),
            r.is_nan() == self.is_nan(),
            self.is_finite() && r.is_finite() ==> r.units() == 2 * self.units(),
            self.is_finite() && !r.is_finite() ==> 2 * units_of_magnitude(self.magnitude())
                >= units_of_magnitude(INFINITY_BITS as int),
    {
        let sign: u32 = if self.bits >= SIGN_BIT {
            SIGN_BIT
        } else {
            0
        };
        let m: u32 = self.bits - sign;
        proof {
            lemma_doubled_magnitude(m as int);
            if m + FRACTIONS > INFINITY_BITS {
                lemma_units_of_magnitude_increase(INFINITY_BITS as int, m + FRACTIONS);
            }
        }
        if m >= INFINITY_BITS {
            self
        } else if m < FRACTIONS {
            Scalar { bits: sign + 2 * m }
        } else if m >= INFINITY_BITS - FRACTIONS {
            Scalar { bits: sign + INFINITY_BITS }
        } else {
            Scalar { bits: self.bits + FRACTIONS }
        }
    }
}

/// Doubling a finite number: a magnitude below 2^23 is doubled as an
/// integer, and a greater one has its exponent raised by one. Either way the
/// new magnitude stands for twice the number.
proof fn lemma_doubled_magnitude(m: int)
    requires
        0 <= m,
    ensures
        m < FRACTIONS ==> units_of_magnitude(2 * m) == 2 * units_of_magnitude(m),
        m >= FRACTIONS ==> units_of_magnitude(m + FRACTIONS) == 2 * units_of_magnitude(m),
{
    let h = FRACTIONS as int;
    if m < h {
        assert(pow2(0) == 1) by {
            lemma2_to64();
        }
        assert(m / h == 0 && m % h == m);
        assert(units_of_magnitude(m) == m);
        if 2 * m >= h {
            assert((2 * m) / h == 1 && (2 * m) % h == 2 * m - h);
            assert(units_of_magnitude(2 * m) == (h + (2 * m - h)) * pow2(0));
        } else {
            assert((2 * m) / h == 0 && (2 * m) % h == 2 * m);
        }
    } else {
        let e = m / h;
        let f = m % h;
        assert((m + h) / h == e + 1 && (m + h) % h == f && e >= 1);
        lemma_pow2_unfold(e as nat);
        assert((h + f) * pow2(e as nat) == 2 * ((h + f) * pow2((e - 1) as nat)))
            by (nonlinear_arith)
            requires
                pow2(e as nat) == 2 * pow2((e - 1) as nat),
        ;
    }
}

impl Vector3 {
    /// Every coordinate is a finite number.
    pub open spec fn is_finite(self) -> bool {
        self.x.is_finite() && self.y.is_finite() && self.z.is_finite()
    }
}

impl BoundingBox {
    /// Both corners are finite.
    pub open spec fn is_finite(self) -> bool {
        self.min.is_finite() && self.max.is_finite()
    }

    /// Twice the coordinate of the box's center on axis `k`, in units of
    /// 2^-149: the sum of the corners' coordinates.
    pub open spec fn doubled_center(self, k: int) -> int {
        self.min.axis(k).units() + self.max.axis(k).units()
    }

    /// The extent of the box on axis `k`, in units of 2^-149.
    pub open spec fn extent(self, k: int) -> int {
        self.max.axis(k).units() - self.min.axis(k).units()
    }

    /// The square of the box's diagonal, in units of 2^-298.
    pub open spec fn squared_diagonal(self) -> int {
        self.extent(0) * self.extent(0) + self.extent(1) * self.extent(1) + self.extent(2)
            * self.extent(2)
    }
}

/// A greater magnitude stands for a greater number.
pub proof fn lemma_units_of_magnitude_increase(a: int, b: int)
    requires
        0 <= a < b,
    ensures
        0 <= units_of_magnitude(a) < units_of_magnitude(b),
{
    let h = FRACTIONS as int;
    let (ea, fa) = (a / h, a % h);
    let (eb, fb) = (b / h, b % h);
    assert(a == ea * h + fa && b == eb * h + fb && ea <= eb) by (nonlinear_arith)
        requires
            0 <= a < b,
            h == 0x80_0000,
            ea == a / h,
            fa == a % h,
            eb == b / h,
            fb == b % h,
    ;
    if ea > 0 {
        lemma_pow2_pos((ea - 1) as nat);
    }
    if eb > 0 {
        lemma_pow2_pos((eb - 1) as nat);
    }
    let pa = pow2((ea - 1) as nat) as int;
    let pb = pow2((eb - 1) as nat) as int;
    if ea == eb {
        if ea > 0 {
            assert(0 <= (h + fa) * pa < (h + fb) * pa) by (nonlinear_arith)
                requires
                    0 <= fa < fb,
                    h > 0,
                    pa > 0,
            ;
        }
    } else if ea == 0 {
        assert(h <= (h + fb) * pb) by (nonlinear_arith)
            requires
                0 <= fb,
                h > 0,
                pb >= 1,
        ;
    } else {
        lemma_pow2_unfold(ea as nat);
        if ea < eb - 1 {
            lemma_pow2_strictly_increases(ea as nat, (eb - 1) as nat);
        }
        assert(0 <= (h + fa) * pa < (h + fb) * pb) by (nonlinear_arith)
            requires
                0 <= fa < h,
                0 <= fb,
                pa > 0,
                2 * pa <= pb,
        ;
    }
}

/// The ranks of two patterns are in the order of what the patterns stand
/// for, and equal exactly when that is equal: of two finite numbers the
/// smaller has the smaller rank, and the two zeros have the same.
pub proof fn lemma_rank_orders_as_units(a: Scalar, b: Scalar)
    ensures
        a.spec_rank() < b.spec_rank() <==> a.units() < b.units(),
        a.spec_rank() == b.spec_rank() <==> a.units() == b.units(),
{
    let (ma, mb) = (a.magnitude(), b.magnitude());
    if ma < mb {
        lemma_units_of_magnitude_increase(ma, mb);
    } else if mb < ma {
        lemma_units_of_magnitude_increase(mb, ma);
    }
    if 0 < ma {
        lemma_units_of_magnitude_increase(0, ma);
    }
    if 0 < mb {
        lemma_units_of_magnitude_increase(0, mb);
    }
    assert(units_of_magnitude(0) == 0);
}

/// The center of a finite box whose lower corner is not above its upper one
/// lies between the corners on every axis.
pub proof fn lemma_center_within(b: BoundingBox, k: int)
    requires
        b.is_finite(),
        b.is_ordered(),
        0 <= k < 3,
    ensures
        2 * b.min.axis(k).units() <= b.doubled_center(k) <= 2 * b.max.axis(k).units(),
{
    lemma_rank_orders_as_units(b.min.axis(k), b.max.axis(k));
}

/// The squared diagonal of a finite box is not negative, and it is zero
/// exactly when the box is a single point.
pub proof fn lemma_diagonal(b: BoundingBox)
    requires
        b.is_finite(),
    ensures
        b.squared_diagonal() >= 0,
        b.squared_diagonal() == 0 <==> b.is_point(),
{
    lemma_rank_orders_as_units(b.min.x, b.max.x);
    lemma_rank_orders_as_units(b.min.y, b.max.y);
    lemma_rank_orders_as_units(b.min.z, b.max.z);
    let (x, y, z) = (b.extent(0), b.extent(1), b.extent(2));
    assert(x * x >= 0 && y * y >= 0 && z * z >= 0 && (x * x == 0 <==> x == 0) && (y * y == 0
        <==> y == 0) && (z * z == 0 <==> z == 0)) by (nonlinear_arith);
}

/// The box of a set of finite points is finite; its lower corner is not above
/// its upper one; its center lies between them; its diagonal is not
/// negative; and its diagonal is zero exactly when all the points coincide.
/// This holds of every sequence of at least one point.
pub proof fn lemma_box_geometry(points: Seq<Vector3>)
    requires
        points.len() > 0,
        forall|i: int| 0 <= i < points.len() ==> (#[trigger] points[i]).is_finite(),
    ensures
        BoundingBox::of(points).is_finite(),
        BoundingBox::of(points).is_ordered(),
        forall|k: int|
            0 <= k < 3 ==> 2 * BoundingBox::of(points).min.axis(k).units()
                <= #[trigger] BoundingBox::of(points).doubled_center(k) <= 2 * BoundingBox::of(
                points,
            ).max.axis(k).units(),
        BoundingBox::of(points).squared_diagonal() >= 0,
        BoundingBox::of(points).squared_diagonal() == 0 <==> forall|i: int, j: int|
            0 <= i < points.len() && 0 <= j < points.len() ==> (#[trigger] points[i]).coincides(
                #[trigger] points[j],
            ),
{
    let b = BoundingBox::of(points);
    assert forall|i: int| 0 <= i < points.len() implies (#[trigger] points[i]).is_numeric() by {
        assert(points[i].is_finite());
    }
    assert forall|k: int| 0 <= k < 3 implies has_number(#[trigger] coordinates(points, k))
        && b.min.axis(k).is_finite() && b.max.axis(k).is_finite() by {
        assert(points[0].is_finite());
        assert(!coordinates(points, k)[0].is_nan());
        lemma_box_corners_are_coordinates(points, k);
        let lo = choose|i: int|
            0 <= i < points.len() && (#[trigger] points[i]).axis(k) == b.min.axis(k);
        let hi = choose|i: int|
            0 <= i < points.len() && (#[trigger] points[i]).axis(k) == b.max.axis(k);
        assert(points[lo].is_finite() && points[hi].is_finite());
    }
    assert(b.min.axis(0) == b.min.x && b.min.axis(1) == b.min.y && b.min.axis(2) == b.min.z);
    assert(b.max.axis(0) == b.max.x && b.max.axis(1) == b.max.y && b.max.axis(2) == b.max.z);
    lemma_box_is_ordered(points);
    assert forall|k: int| 0 <= k < 3 implies 2 * b.min.axis(k).units() <= #[trigger] b.doubled_center(
        k,
    ) <= 2 * b.max.axis(k).units() by {
        lemma_center_within(b, k);
    }
    lemma_diagonal(b);
    lemma_box_is_point(points);
}

} // verus!
