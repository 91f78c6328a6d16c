//! Small helpers shared across the machine.

use vstd::prelude::*;

use crate::display::bit_at;

verus! {

/// The bits of a byte, most significant first.
pub fn bits_from_u8(byte: u8) -> (r: Vec<bool>)
    ensures
        r@.len() == 8,
        forall|j: int| 0 <= j < 8 ==> r@[j] == bit_at(byte, j),
{
    crate::display::bits_from_u8(byte)
}

} // verus!
