//! Whole-number units shared by the configuration and the converters.

use vstd::prelude::*;

verus! {

/// A quantity in thousandths of its unit: of a decibel, of a millisecond,
/// of a hertz.
pub type Milli = i64;

/// The smaller of a count and what `usize` can hold.
pub open spec fn held(count: nat) -> nat {
    if count <= usize::MAX {
        count
    } else {
        usize::MAX as nat
    }
}

} // verus!
