//! Pan and tilt values.
//!
//! A pan or tilt value is a single-precision number between -1 and 1. It is kept
//! as its IEEE 754 bit pattern: the sign is the top bit, and below it the
//! patterns of numbers grow with their magnitude.

use vstd::prelude::*;

verus! {

/// Pattern of the number below which a commanded velocity counts as standing
/// still, 0.01.
pub const PTZ_STOP_THRESHOLD: u32 = 0x3c23_d70a;

/// Pattern of the smallest change of velocity that is worth a command, 0.02.
pub const PTZ_UPDATE_THRESHOLD: u32 = 0x3ca3_d70a;

/// A horizontal and a vertical value, each as the bit pattern of a
/// single-precision number.
#[derive(Clone, Copy, Debug)]
pub struct AxisValue {
    pub x: u32,
    pub y: u32,
}

/// Pattern of the absolute value of a number.
pub open spec fn magnitude(bits: u32) -> int {
    if bits >= 0x8000_0000 {
        bits - 0x8000_0000
    } else {
        bits as int
    }
}

/// The pattern stands for no number.
pub open spec fn is_nan(bits: u32) -> bool {
    magnitude(bits) > 0x7f80_0000
}

/// The absolute value of the number is less than `limit`; a limit that is
/// negative or no number is never undercut.
pub open spec fn within(bits: u32, limit: u32) -> bool {
    &&& !is_nan(bits)
    &&& limit <= 0x7f80_0000
    &&& magnitude(bits) < limit
}

/// The absolute value of the number is greater than the positive number `limit`.
pub open spec fn beyond(bits: u32, limit: u32) -> bool {
    &&& !is_nan(bits)
    &&& magnitude(bits) > limit
}

/// The patterns stand for equal numbers: they are the same, or both zero.
pub open spec fn same_number(a: u32, b: u32) -> bool {
    &&& !is_nan(a)
    &&& !is_nan(b)
    &&& a == b || (magnitude(a) == 0 && magnitude(b) == 0)
}

/// Pattern of the absolute value of a number.
fn magnitude_of(bits: u32) -> (m: u32)
    ensures
        m == magnitude(bits),
{
    if bits >= 0x8000_0000 {
        bits - 0x8000_0000
    } else {
        bits
    }
}

/// Tells whether the absolute value of the number is less than `limit`.
pub fn is_within(bits: u32, limit: u32) -> (inside: bool)
    ensures
        inside == within(bits, limit),
{
    let m = magnitude_of(bits);
    m <= 0x7f80_0000 && limit <= 0x7f80_0000 && m < limit
}

/// Tells whether the absolute value of the number is greater than `limit`.
pub fn is_beyond(bits: u32, limit: u32) -> (outside: bool)
    ensures
        outside == beyond(bits, limit),
{
    let m = magnitude_of(bits);
    m <= 0x7f80_0000 && m > limit
}

impl AxisValue {
    /// Zero on both axes.
    pub open spec fn zero() -> AxisValue {
        AxisValue { x: 0, y: 0 }
    }

    /// The values are equal as numbers on both axes.
    pub open spec fn same(self, other: AxisValue) -> bool {
        same_number(self.x, other.x) && same_number(self.y, other.y)
    }

    /// Both values are less than `limit` in magnitude.
    pub open spec fn both_within(self, limit: u32) -> bool {
        within(self.x, limit) && within(self.y, limit)
    }

    /// A value is greater than `limit` in magnitude.
    pub open spec fn any_beyond(self, limit: u32) -> bool {
        beyond(self.x, limit) || beyond(self.y, limit)
    }

    /// Tells whether both values are less than `limit` in magnitude.
    pub fn is_both_within(self, limit: u32) -> (inside: bool)
        ensures
            inside == self.both_within(limit),
    {
        is_within(self.x, limit) && is_within(self.y, limit)
    }

    /// Tells whether a value is greater than `limit` in magnitude.
    pub fn is_any_beyond(self, limit: u32) -> (outside: bool)
        ensures
            outside == self.any_beyond(limit),
    {
        is_beyond(self.x, limit) || is_beyond(self.y, limit)
    }
}

impl Default for AxisValue {
    fn default() -> (value: AxisValue)
        ensures
            value == AxisValue::zero(),
    {
        AxisValue { x: 0, y: 0 }
    }
}

impl PartialEq for AxisValue {
    fn eq(&self, other: &AxisValue) -> (equal: bool) {
        let ax = magnitude_of(self.x);
        let bx = magnitude_of(other.x);
        let ay = magnitude_of(self.y);
        let by = magnitude_of(other.y);
        ax <= 0x7f80_0000 && bx <= 0x7f80_0000 && ay <= 0x7f80_0000 && by <= 0x7f80_0000 && (self.x
            == other.x || (ax == 0 && bx == 0)) && (self.y == other.y || (ay == 0 && by == 0))
    }
}

impl vstd::std_specs::cmp::PartialEqSpecImpl for AxisValue {
    open spec fn obeys_eq_spec() -> bool {
        true
    }

    open spec fn eq_spec(&self, other: &AxisValue) -> bool {
        self.same(*other)
    }
}

/// A value that stands still on both axes is not beyond the same limit on
/// either.
pub proof fn law_within_excludes_beyond(value: AxisValue, limit: u32)
    requires
        value.both_within(limit),
    ensures
        !value.any_beyond(limit),
{
}

/// A positive number is within a limit exactly if it is less, and beyond it exactly if
/// it is greater; the patterns of such numbers are ordered as the numbers are.
pub proof fn law_limits_of_positive_numbers(number: u32, limit: u32)
    requires
        number <= 0x7f80_0000,
        limit <= 0x7f80_0000,
    ensures
        within(number, limit) <==> number < limit,
        beyond(number, limit) <==> number > limit,
{
}

/// The sign of a number, which is the top bit of its pattern, makes no difference to
/// any limit, nor does it to whether the pattern stands for a number; nothing but zero
/// is equal to its own negation.
pub proof fn law_sign_does_not_matter(number: u32, limit: u32)
    requires
        number < 0x8000_0000,
    ensures
        within((number + 0x8000_0000) as u32, limit) == within(number, limit),
        beyond((number + 0x8000_0000) as u32, limit) == beyond(number, limit),
        magnitude((number + 0x8000_0000) as u32) == magnitude(number),
        is_nan((number + 0x8000_0000) as u32) == is_nan(number),
        is_nan(number) <==> number > 0x7f80_0000,
        same_number(number, (number + 0x8000_0000) as u32) <==> number == 0,
{
}

/// What stands for no number is neither within nor beyond any limit, nor equal to
/// anything; and nothing is within a limit that is negative or no number.
pub proof fn law_no_number(pattern: u32, other: u32, limit: u32)
    ensures
        is_nan(pattern) ==> !within(pattern, limit) && !beyond(pattern, limit),
        is_nan(pattern) ==> !same_number(pattern, other) && !same_number(other, pattern),
        limit > 0x7f80_0000 ==> !within(pattern, limit),
{
}

/// Numbers are equal to themselves; two patterns for equal numbers are the same, or
/// those of the two zeros.
pub proof fn law_equal_numbers(a: u32, b: u32)
    ensures
        !is_nan(a) ==> same_number(a, a),
        same_number(a, b) == same_number(b, a),
        same_number(a, b) ==> a == b || (a % 0x8000_0000 == 0 && b % 0x8000_0000 == 0),
        same_number(0, 0x8000_0000),
{
}

/// Both axes count alike: a pair is within a limit if neither axis reaches it, beyond it
/// if one of them exceeds it, and equal to another pair if both axes are.
pub proof fn law_axes_count_alike(value: AxisValue, other: AxisValue, limit: u32)
    ensures
        value.both_within(limit) <==> within(value.x, limit) && within(value.y, limit),
        value.any_beyond(limit) <==> beyond(value.x, limit) || beyond(value.y, limit),
        value.same(other) <==> same_number(value.x, other.x) && same_number(value.y, other.y),
        AxisValue::zero().x == 0 && AxisValue::zero().y == 0,
        0 < limit <= 0x7f80_0000 ==> AxisValue::zero().both_within(limit),
{
}

} // verus!
