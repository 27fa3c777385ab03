//! The raw record that the platform hands out for one directory entry.

use crate::attributes::{DIRECTORY, KNOWN};
use crate::path::{is_self_or_parent, name_in};
use crate::time::{joined, Timestamp};
use vstd::prelude::*;

verus! {

/// One record of a directory search, as plain values.
#[derive(Clone, Debug, PartialEq, Eq)]
pub struct RawRecord {
    pub file_attributes: u32,
    pub creation_time: Timestamp,
    pub last_access_time: Timestamp,
    pub last_write_time: Timestamp,
    pub file_size_high: u32,
    pub file_size_low: u32,
    /// The name buffer: the name, then a terminator, then anything.
    pub file_name: Vec<u8>,
}

/// What a [`RawRecord`] stands for.
pub struct RecordModel {
    pub file_attributes: u32,
    pub creation_time: Timestamp,
    pub last_access_time: Timestamp,
    pub last_write_time: Timestamp,
    pub file_size_high: u32,
    pub file_size_low: u32,
    pub file_name: Seq<u8>,
}

impl RecordModel {
    /// The name that the name buffer holds.
    pub open spec fn name(self) -> Seq<u8> {
        name_in(self.file_name)
    }

    /// Whether this is one of the two records that stand for the directory
    /// itself and for its parent. They are no entries.
    pub open spec fn is_self_or_parent(self) -> bool {
        is_self_or_parent(self.name())
    }

    /// Whether each of the three timestamps has a calendar form.
    pub open spec fn has_dates(self) -> bool {
        &&& self.creation_time.resolved() is Some
        &&& self.last_access_time.resolved() is Some
        &&& self.last_write_time.resolved() is Some
    }

    /// The attributes after decoding: the known bits of the raw word.
    pub open spec fn attributes(self) -> u32 {
        self.file_attributes & KNOWN
    }

    /// Whether the record has the directory flag.
    pub open spec fn is_folder(self) -> bool {
        self.attributes() & DIRECTORY == DIRECTORY
    }

    /// The size in bytes: the high word times 2^32, plus the low word.
    pub open spec fn size(self) -> u64 {
        joined(self.file_size_high, self.file_size_low) as u64
    }
}

impl View for RawRecord {
    type V = RecordModel;

    open spec fn view(&self) -> RecordModel {
        RecordModel {
            file_attributes: self.file_attributes,
            creation_time: self.creation_time,
            last_access_time: self.last_access_time,
            last_write_time: self.last_write_time,
            file_size_high: self.file_size_high,
            file_size_low: self.file_size_low,
            file_name: self.file_name@,
        }
    }
}

} // verus!
