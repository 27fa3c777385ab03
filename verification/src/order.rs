//! The order of raw timestamps: that of their tick counts.

use crate::time::FileTime;
use core::cmp::Ordering;
use vstd::prelude::*;
use vstd::std_specs::cmp::PartialOrdSpecImpl;

verus! {

impl PartialOrdSpecImpl for FileTime {
    open spec fn obeys_partial_cmp_spec() -> bool {
        true
    }

    open spec fn partial_cmp_spec(&self, other: &FileTime) -> Option<Ordering> {
        if self.ticks_spec() < other.ticks_spec() {
            Some(Ordering::Less)
        } else if self.ticks_spec() > other.ticks_spec() {
            Some(Ordering::Greater)
        } else {
            Some(Ordering::Equal)
        }
    }
}

impl PartialOrd for FileTime {
    /// Compares two raw timestamps as the 64-bit quantities they are: by
    /// the high word first, and by the low word where the high words agree.
    fn partial_cmp(&self, other: &FileTime) -> (order: Option<Ordering>) {
        let mine = self.ticks();
        let theirs = other.ticks();
        if mine < theirs {
            Some(Ordering::Less)
        } else if mine > theirs {
            Some(Ordering::Greater)
        } else {
            Some(Ordering::Equal)
        }
    }
}

} // verus!
