//! The permission filter: a set of permission bits and the way an entry's
//! bits are held against it, read from a descriptor in octal.

use vstd::prelude::*;
use vstd::string::*;

verus! {

/// The bits of a mode that are permissions.
pub const PERMISSION_MASK: u32 = 0o7777;

/// The longest run of octal digits that a descriptor may hold.
pub const MAX_DIGITS: usize = 4;

/// The character that, first in a descriptor, asks for the bits as a minimum.
pub const AT_LEAST_MARKER: char = '+';

/// How an entry's permission bits are held against the filter's.
#[derive(Clone, Copy, Debug, PartialEq, Eq, Structural)]
pub enum PermissionTest {
    /// The entry has exactly the filter's bits. This is the default.
    Exact,
    /// The entry has every bit of the filter, and perhaps more.
    AtLeast,
}

/// A filter on permission bits.
#[derive(Clone, Copy, Debug, PartialEq, Eq, Structural)]
pub struct PermissionFilter {
    pub bits: u32,
    pub test: PermissionTest,
}

impl PermissionFilter {
    /// Whether an entry with these permission bits passes the filter.
    pub open spec fn admits(self, permissions: u32) -> bool {
        match self.test {
            PermissionTest::Exact => permissions & PERMISSION_MASK == self.bits,
            PermissionTest::AtLeast => permissions & self.bits == self.bits,
        }
    }

    /// Tells whether an entry with these permission bits passes the filter.
    pub fn allows(&self, permissions: u32) -> (pass: bool)
        ensures
            pass == self.admits(permissions),
    {
        match self.test {
            PermissionTest::Exact => permissions & PERMISSION_MASK == self.bits,
            PermissionTest::AtLeast => permissions & self.bits == self.bits,
        }
    }
}

pub open spec fn is_octal_digit(c: char) -> bool {
    '0' <= c <= '7'
}

pub open spec fn digit_value(c: char) -> nat {
    (c as nat - '0' as nat) as nat
}

/// The number that a run of octal digits writes, the first digit weighing most.
pub open spec fn octal_value(digits: Seq<char>) -> nat
    decreases digits.len(),
{
    if digits.len() == 0 {
        0
    } else {
        8 * octal_value(digits.drop_last()) + digit_value(digits.last())
    }
}

/// A run of one to four octal digits.
pub open spec fn is_octal_run(digits: Seq<char>) -> bool {
    &&& 1 <= digits.len() <= MAX_DIGITS
    &&& forall|i: int| 0 <= i < digits.len() ==> is_octal_digit(#[trigger] digits[i])
}

/// What a permission descriptor means: one to four octal digits ask for
/// exactly those bits; with a `+` before them they ask for at least those
/// bits; anything else is no descriptor.
pub open spec fn descriptor_meaning(text: Seq<char>) -> Option<PermissionFilter> {
    if text.len() > 0 && text[0] == AT_LEAST_MARKER {
        if is_octal_run(text.skip(1)) {
            Some(
                PermissionFilter {
                    bits: octal_value(text.skip(1)) as u32,
                    test: PermissionTest::AtLeast,
                },
            )
        } else {
            None
        }
    } else if is_octal_run(text) {
        Some(PermissionFilter { bits: octal_value(text) as u32, test: PermissionTest::Exact })
    } else {
        None
    }
}

/// One more than the largest number that `count` octal digits can write.
pub open spec fn octal_limit(count: nat) -> nat
    decreases count,
{
    if count == 0 {
        1
    } else {
        8 * octal_limit((count - 1) as nat)
    }
}

/// A run of octal digits writes a number below the limit of its length.
pub proof fn octal_value_is_bounded(digits: Seq<char>)
    requires
        forall|i: int| 0 <= i < digits.len() ==> is_octal_digit(#[trigger] digits[i]),
    ensures
        octal_value(digits) < octal_limit(digits.len()),
    decreases digits.len(),
{
    if digits.len() > 0 {
        octal_value_is_bounded(digits.drop_last());
    }
}

/// Every descriptor that means a filter means one within the permission bits.
pub proof fn descriptor_stays_in_mask(text: Seq<char>)
    requires
        descriptor_meaning(text) is Some,
    ensures
        descriptor_meaning(text).unwrap().bits <= PERMISSION_MASK,
{
    let digits = if text.len() > 0 && text[0] == AT_LEAST_MARKER {
        text.skip(1)
    } else {
        text
    };
    octal_value_is_bounded(digits);
    reveal_with_fuel(octal_limit, 5);
}

/// Reads a permission descriptor.
pub fn parse_descriptor(text: &str) -> (filter: Option<PermissionFilter>)
    ensures
        filter == descriptor_meaning(text@),
{
    let length = text.unicode_len();
    let marked = length > 0 && text.get_char(0) == AT_LEAST_MARKER;
    let start: usize = if marked {
        1
    } else {
        0
    };
    let ghost digits = text@.skip(start as int);
    assert(text@.skip(0) =~= text@);
    if length - start < 1 || length - start > MAX_DIGITS {
        return None;
    }
    let mut bits: u32 = 0;
    let mut at: usize = start;
    while at < length
        invariant
            start <= at <= length,
            length == text@.len(),
            length - start <= MAX_DIGITS,
            digits == text@.skip(start as int),
            marked == (text@.len() > 0 && text@[0] == AT_LEAST_MARKER),
            start == (if marked { 1usize } else { 0usize }),
            forall|i: int| 0 <= i < at - start ==> is_octal_digit(#[trigger] digits[i]),
            bits == octal_value(digits.take(at - start)),
            bits < octal_limit((at - start) as nat),
        decreases length - at,
    {
        let c = text.get_char(at);
        if !('0' <= c && c <= '7') {
            assert(!is_octal_digit(digits[at - start]));
            return None;
        }
        proof {
            reveal_with_fuel(octal_limit, 5);
            assert(digits.take(at - start + 1).drop_last() =~= digits.take(at - start));
        }
        bits = bits * 8 + (c as u32 - '0' as u32);
        at = at + 1;
    }
    assert(digits.take(length - start) =~= digits);
    let test = if marked {
        PermissionTest::AtLeast
    } else {
        PermissionTest::Exact
    };
    Some(PermissionFilter { bits, test })
}

} // verus!
