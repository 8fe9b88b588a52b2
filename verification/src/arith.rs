//! The two wrapping 8-bit operations the machine is built from: the
//! subtraction that drives every instruction, and the program-counter
//! increment.

use vstd::prelude::*;

verus! {

/// Value of the wrapping 8-bit subtraction `x - y`.
pub open spec fn sub_wrap(x: u8, y: u8) -> u8 {
    if x >= y {
        (x - y) as u8
    } else {
        (x - y + 256) as u8
    }
}

/// The subtraction borrows exactly when the result would go below zero.
pub open spec fn sub_borrows(x: u8, y: u8) -> bool {
    x < y
}

/// Value of the wrapping 8-bit increment of `p`.
pub open spec fn inc_wrap(p: u8) -> u8 {
    if p == 255 {
        0
    } else {
        (p + 1) as u8
    }
}

/// The increment wraps past 255 exactly when `p` is 255.
pub open spec fn inc_wraps(p: u8) -> bool {
    p == 255
}

/// Unsigned 8-bit subtraction `x - y` that wraps modulo 256, together with
/// the borrow flag that records whether it went below zero.
pub fn subtract_with_borrow(x: u8, y: u8) -> (r: (u8, bool))
    ensures
        r.0 == sub_wrap(x, y),
        r.1 == sub_borrows(x, y),
{
    if x >= y {
        (x - y, false)
    } else {
        (255 - (y - x - 1), true)
    }
}

/// Wrapping 8-bit increment together with its overflow flag.
pub(crate) fn increment_wrapping(p: u8) -> (r: (u8, bool))
    ensures
        r.0 == inc_wrap(p),
        r.1 == inc_wraps(p),
{
    if p == 255 {
        (0, true)
    } else {
        (p + 1, false)
    }
}

} // verus!
