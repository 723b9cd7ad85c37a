//! Real numbers as the bit patterns that carry them.
//!
//! Coordinates, scroll amounts and cursor positions reach the viewer as
//! IEEE 754 numbers. This library never does arithmetic on them: it carries
//! them, tells a number from a NaN, and orders them. All of that can be read
//! off the bit pattern with integer comparisons alone, which is what this
//! module does.
use vstd::prelude::*;

verus! {

/// The sign bit of a single-precision pattern.
pub const SIGN_BIT: u32 = 0x8000_0000;

/// The pattern of positive infinity: all exponent bits set, no fraction bit.
/// A magnitude above it is a NaN.
pub const INFINITY_BITS: u32 = 0x7f80_0000;

/// A single-precision IEEE 754 value, held as its 32-bit pattern.
///
/// `==` on two scalars compares the patterns, so it tells `-0` from `+0` and
/// one NaN from another; [`Scalar::spec_same`] is equality of the numbers.
#[derive(Clone, Copy, Debug, PartialEq, Eq, Structural)]
pub struct Scalar {
    pub bits: u32,
}

/// A double-precision IEEE 754 value, held as its 64-bit pattern. The library
/// only hands these on.
#[derive(Clone, Copy, Debug, PartialEq, Eq, Structural)]
pub struct Scalar64 {
    pub bits: u64,
}

impl Scalar {
    /// The pattern without its sign bit.
    pub open spec fn magnitude(self) -> int {
        if self.bits >= SIGN_BIT {
            self.bits - SIGN_BIT
        } else {
            self.bits as int
        }
    }

    /// Whether the sign bit is set.
    pub open spec fn is_negative(self) -> bool {
        self.bits >= SIGN_BIT
    }

    /// Whether the pattern is a NaN rather than a number.
    pub open spec fn spec_is_nan(self) -> bool {
        self.magnitude() > INFINITY_BITS
    }

    /// The place of a number on the number line, as an integer: the magnitude,
    /// negated for a negative number. Of two numbers the smaller has the
    /// smaller rank, and the two zeros share rank 0. Infinity has the greatest
    /// rank of all numbers. The rank of a NaN has no meaning.
    pub open spec fn spec_rank(self) -> int {
        if self.is_negative() {
            -self.magnitude()
        } else {
            self.magnitude()
        }
    }

    /// `self < other` as numbers: false when either is a NaN.
    pub open spec fn spec_lt(self, other: Scalar) -> bool {
        !self.spec_is_nan() && !other.spec_is_nan() && self.spec_rank() < other.spec_rank()
    }

    /// `self <= other` as numbers: false when either is a NaN.
    pub open spec fn spec_le(self, other: Scalar) -> bool {
        !self.spec_is_nan() && !other.spec_is_nan() && self.spec_rank() <= other.spec_rank()
    }

    /// `self == other` as numbers: false when either is a NaN, true of the two
    /// zeros.
    pub open spec fn spec_same(self, other: Scalar) -> bool {
        !self.spec_is_nan() && !other.spec_is_nan() && self.spec_rank() == other.spec_rank()
    }

    /// The lesser of two values, passing over a NaN: if one is a NaN the other
    /// is the result. Of two equal numbers `self` is the result.
    pub open spec fn spec_min(self, other: Scalar) -> Scalar {
        if self.spec_is_nan() {
            other
        } else if other.spec_lt(self) {
            other
        } else {
            self
        }
    }

    /// The greater of two values, passing over a NaN: if one is a NaN the
    /// other is the result. Of two equal numbers `self` is the result.
    pub open spec fn spec_max(self, other: Scalar) -> Scalar {
        if self.spec_is_nan() {
            other
        } else if self.spec_lt(other) {
            other
        } else {
            self
        }
    }

    pub fn from_bits(bits: u32) -> (r: Scalar)
        ensures
            r.bits == bits,
    {
        Scalar { bits }
    }

    pub fn to_bits(self) -> (r: u32)
        ensures
            r == self.bits,
    {
        self.bits
    }

    #[verifier::when_used_as_spec(spec_is_nan)]
    pub fn is_nan(self) -> (r: bool)
        ensures
            r == self.spec_is_nan(),
    {
        if self.bits >= SIGN_BIT {
            self.bits - SIGN_BIT > INFINITY_BITS
        } else {
            self.bits > INFINITY_BITS
        }
    }

    pub fn rank(self) -> (r: i64)
        ensures
            r == self.spec_rank(),
    {
        if self.bits >= SIGN_BIT {
            -((self.bits - SIGN_BIT) as i64)
        } else {
            self.bits as i64
        }
    }

    #[verifier::when_used_as_spec(spec_lt)]
    pub fn lt(self, other: Scalar) -> (r: bool)
        ensures
            r == self.spec_lt(other),
    {
        !self.is_nan() && !other.is_nan() && self.rank() < other.rank()
    }

    #[verifier::when_used_as_spec(spec_le)]
    pub fn le(self, other: Scalar) -> (r: bool)
        ensures
            r == self.spec_le(other),
    {
        !self.is_nan() && !other.is_nan() && self.rank() <= other.rank()
    }

    #[verifier::when_used_as_spec(spec_same)]
    pub fn same(self, other: Scalar) -> (r: bool)
        ensures
            r == self.spec_same(other),
    {
        !self.is_nan() && !other.is_nan() && self.rank() == other.rank()
    }

    #[verifier::when_used_as_spec(spec_min)]
    pub fn min(self, other: Scalar) -> (r: Scalar)
        ensures
            r == self.spec_min(other),
    {
        if self.is_nan() {
            other
        } else if other.lt(self) {
            other
        } else {
            self
        }
    }

    #[verifier::when_used_as_spec(spec_max)]
    pub fn max(self, other: Scalar) -> (r: Scalar)
        ensures
            r == self.spec_max(other),
    {
        if self.is_nan() {
            other
        } else if self.lt(other) {
            other
        } else {
            self
        }
    }
}

/// The least of a sequence of values: the first value, then the lesser of the
/// least so far and each later value, in order. Zero for no value at all.
pub open spec fn least(values: Seq<Scalar>) -> Scalar
    decreases values.len(),
{
    if values.len() == 0 {
        Scalar { bits: 0 }
    } else if values.len() == 1 {
        values[0]
    } else {
        least(values.drop_last()).min(values.last())
    }
}

/// The greatest of a sequence of values: the first value, then the greater of
/// the greatest so far and each later value, in order. Zero for no value at
/// all.
pub open spec fn greatest(values: Seq<Scalar>) -> Scalar
    decreases values.len(),
{
    if values.len() == 0 {
        Scalar { bits: 0 }
    } else if values.len() == 1 {
        values[0]
    } else {
        greatest(values.drop_last()).max(values.last())
    }
}

/// Some member of the sequence is a number.
pub open spec fn has_number(values: Seq<Scalar>) -> bool {
    exists|i: int| 0 <= i < values.len() && !(#[trigger] values[i]).is_nan()
}

/// The two sequences hold the same values, in whatever order and however
/// often.
pub open spec fn same_members(a: Seq<Scalar>, b: Seq<Scalar>) -> bool {
    &&& forall|i: int| 0 <= i < a.len() ==> b.contains(#[trigger] a[i])
    &&& forall|j: int| 0 <= j < b.len() ==> a.contains(#[trigger] b[j])
}

/// The least of a non-empty sequence is one of its members; it is a number
/// as soon as one member is; and no number in the sequence is below it.
pub proof fn lemma_least(values: Seq<Scalar>)
    requires
        values.len() > 0,
    ensures
        values.contains(least(values)),
        !least(values).is_nan() <==> has_number(values),
        forall|i: int|
            0 <= i < values.len() && !(#[trigger] values[i]).is_nan() ==> least(values).le(
                values[i],
            ),
    decreases values.len(),
{
    if values.len() == 1 {
        assert(values[0] == least(values));
        if !values[0].is_nan() {
            assert(has_number(values));
        }
    } else {
        let front = values.drop_last();
        let last = values.last();
        lemma_least(front);
        let j = choose|j: int| 0 <= j < front.len() && front[j] == least(front);
        assert(values[j] == least(front));
        assert(values[values.len() - 1] == last);
        if has_number(front) {
            let i = choose|i: int| 0 <= i < front.len() && !(#[trigger] front[i]).is_nan();
            assert(!values[i].is_nan());
        }
        if has_number(values) {
            let i = choose|i: int| 0 <= i < values.len() && !(#[trigger] values[i]).is_nan();
            if i < front.len() {
                assert(!front[i].is_nan());
            }
        }
        assert forall|i: int|
            0 <= i < values.len() && !(#[trigger] values[i]).is_nan() implies least(values).le(
            values[i],
        ) by {
            if i < front.len() {
                assert(!front[i].is_nan());
            }
        }
    }
}

/// The greatest of a non-empty sequence is one of its members; it is a number
/// as soon as one member is; and no number in the sequence is above it.
pub proof fn lemma_greatest(values: Seq<Scalar>)
    requires
        values.len() > 0,
    ensures
        values.contains(greatest(values)),
        !greatest(values).is_nan() <==> has_number(values),
        forall|i: int|
            0 <= i < values.len() && !(#[trigger] values[i]).is_nan() ==> values[i].le(
                greatest(values),
            ),
    decreases values.len(),
{
    if values.len() == 1 {
        assert(values[0] == greatest(values));
        if !values[0].is_nan() {
            assert(has_number(values));
        }
    } else {
        let front = values.drop_last();
        let last = values.last();
        lemma_greatest(front);
        let j = choose|j: int| 0 <= j < front.len() && front[j] == greatest(front);
        assert(values[j] == greatest(front));
        assert(values[values.len() - 1] == last);
        if has_number(front) {
            let i = choose|i: int| 0 <= i < front.len() && !(#[trigger] front[i]).is_nan();
            assert(!values[i].is_nan());
        }
        if has_number(values) {
            let i = choose|i: int| 0 <= i < values.len() && !(#[trigger] values[i]).is_nan();
            if i < front.len() {
                assert(!front[i].is_nan());
            }
        }
        assert forall|i: int|
            0 <= i < values.len() && !(#[trigger] values[i]).is_nan() implies values[i].le(
            greatest(values),
        ) by {
            if i < front.len() {
                assert(!front[i].is_nan());
            }
        }
    }
}

/// In a sequence that holds a number, the least is not above the greatest.
pub proof fn lemma_least_le_greatest(values: Seq<Scalar>)
    requires
        has_number(values),
    ensures
        least(values).le(greatest(values)),
{
    lemma_least(values);
    lemma_greatest(values);
    let i = choose|i: int| 0 <= i < values.len() && !(#[trigger] values[i]).is_nan();
    assert(least(values).le(values[i]));
    assert(values[i].le(greatest(values)));
}

/// The least and the greatest of a sequence are the same number exactly when
/// the sequence holds a number and all its numbers are the same.
pub proof fn lemma_least_same_greatest(values: Seq<Scalar>)
    requires
        values.len() > 0,
    ensures
        least(values).same(greatest(values)) <==> has_number(values) && forall|i: int, j: int|
            0 <= i < values.len() && 0 <= j < values.len() && !(#[trigger] values[i]).is_nan()
                && !(#[trigger] values[j]).is_nan() ==> values[i].same(values[j]),
{
    lemma_least(values);
    lemma_greatest(values);
    if least(values).same(greatest(values)) {
        assert forall|i: int, j: int|
            0 <= i < values.len() && 0 <= j < values.len() && !(#[trigger] values[i]).is_nan()
                && !(#[trigger] values[j]).is_nan() implies values[i].same(values[j]) by {
            assert(least(values).le(values[i]) && values[i].le(greatest(values)));
            assert(least(values).le(values[j]) && values[j].le(greatest(values)));
        }
    } else if has_number(values) {
        let a = choose|a: int| 0 <= a < values.len() && values[a] == least(values);
        let b = choose|b: int| 0 <= b < values.len() && values[b] == greatest(values);
        assert(!values[a].is_nan() && !values[b].is_nan());
        assert(!values[a].same(values[b]));
    }
}

/// The order of the values does not matter, nor how often each occurs: two
/// sequences with the same members have the same number as their least, and
/// the same number as their greatest; or both hold no number at all.
pub proof fn lemma_order_independent(a: Seq<Scalar>, b: Seq<Scalar>)
    requires
        a.len() > 0,
        b.len() > 0,
        same_members(a, b),
    ensures
        has_number(a) == has_number(b),
        has_number(a) ==> least(a).same(least(b)) && greatest(a).same(greatest(b)),
{
    lemma_least(a);
    lemma_least(b);
    lemma_greatest(a);
    lemma_greatest(b);
    if has_number(a) {
        let i = choose|i: int| 0 <= i < a.len() && !(#[trigger] a[i]).is_nan();
        assert(b.contains(a[i]));
        let j = choose|j: int| 0 <= j < b.len() && b[j] == a[i];
        assert(!b[j].is_nan());
    }
    if has_number(b) {
        let j = choose|j: int| 0 <= j < b.len() && !(#[trigger] b[j]).is_nan();
        assert(a.contains(b[j]));
        let i = choose|i: int| 0 <= i < a.len() && a[i] == b[j];
        assert(!a[i].is_nan());
    }
    if has_number(a) {
        lemma_member_between(a, b, least(a));
        lemma_member_between(b, a, least(b));
        lemma_member_between(a, b, greatest(a));
        lemma_member_between(b, a, greatest(b));
    }
}

/// A number that is a member of `a` lies between the least and the greatest
/// of any sequence with the same members.
proof fn lemma_member_between(a: Seq<Scalar>, b: Seq<Scalar>, v: Scalar)
    requires
        b.len() > 0,
        same_members(a, b),
        a.contains(v),
        !v.is_nan(),
    ensures
        least(b).le(v),
        v.le(greatest(b)),
{
    lemma_least(b);
    lemma_greatest(b);
    let i = choose|i: int| 0 <= i < a.len() && a[i] == v;
    assert(b.contains(a[i]));
    let j = choose|j: int| 0 <= j < b.len() && b[j] == v;
    assert(!b[j].is_nan());
}

impl Scalar64 {
    pub fn from_bits(bits: u64) -> (r: Scalar64)
        ensures
            r.bits == bits,
    {
        Scalar64 { bits }
    }

    pub fn to_bits(self) -> (r: u64)
        ensures
            r == self.bits,
    {
        self.bits
    }
}

} // verus!
