//! File attributes are metadata values stored by the file system on disk.
//!
//! A raw attribute word is decoded into a [`FileAttributes`] bit set by
//! masking it against the union of the named flags below.

use vstd::prelude::*;

verus! {

pub const READONLY: u32 = 0x0000_0001;

pub const HIDDEN: u32 = 0x0000_0002;

pub const SYSTEM: u32 = 0x0000_0004;

pub const DIRECTORY: u32 = 0x0000_0010;

pub const ARCHIVE: u32 = 0x0000_0020;

pub const DEVICE: u32 = 0x0000_0040;

pub const NORMAL: u32 = 0x0000_0080;

pub const TEMPORARY: u32 = 0x0000_0100;

pub const SPARSE_FILE: u32 = 0x0000_0200;

pub const REPARSE_POINT: u32 = 0x0000_0400;

pub const COMPRESSED: u32 = 0x0000_0800;

pub const OFFLINE: u32 = 0x0000_1000;

pub const NOT_CONTENT_INDEXED: u32 = 0x0000_2000;

pub const ENCRYPTED: u32 = 0x0000_4000;

pub const INTEGRITY_STREAM: u32 = 0x0000_8000;

pub const VIRTUAL: u32 = 0x0001_0000;

pub const NO_SCRUB_DATA: u32 = 0x0002_0000;

pub const EA: u32 = 0x0004_0000;

pub const PINNED: u32 = 0x0008_0000;

pub const UNPINNED: u32 = 0x0010_0000;

/// Shares its bit with `RECALL_ON_DATA_ACCESS`.
pub const RECALL_ON_OPEN: u32 = 0x0040_0000;

/// Shares its bit with `RECALL_ON_OPEN`.
pub const RECALL_ON_DATA_ACCESS: u32 = 0x0040_0000;

/// The union of every named flag. Bits outside it carry no meaning here.
pub const KNOWN: u32 = 0x005F_FFF7;

/// A set of attribute flags, held as the bits of one word.
///
/// Only bits of [`KNOWN`] are ever set: decoding drops the others.
#[derive(Clone, Copy, Debug, PartialEq, Eq)]
pub struct FileAttributes {
    bits: u32,
}

impl View for FileAttributes {
    type V = u32;

    closed spec fn view(&self) -> u32 {
        self.bits
    }
}

impl FileAttributes {
    #[verifier::type_invariant]
    spec fn only_known_bits(self) -> bool {
        self.bits & !KNOWN == 0
    }

    /// What `contains` answers: every bit of `flag` is set in `self`.
    pub open spec fn has(self, flag: u32) -> bool {
        self@ & flag == flag
    }

    /// Decodes a raw attribute word. Unknown bits are dropped, never refused.
    pub fn decode(raw: u32) -> (attrs: FileAttributes)
        ensures
            attrs@ == raw & KNOWN,
    {
        assert((raw & KNOWN) & !KNOWN == 0) by (bit_vector);
        FileAttributes { bits: raw & KNOWN }
    }

    /// The flags as one word.
    pub fn bits(&self) -> (bits: u32)
        ensures
            bits == self@,
            bits & !KNOWN == 0,
    {
        proof {
            use_type_invariant(self);
        }
        self.bits
    }

    /// Whether every bit of `flag` is set.
    pub fn contains(&self, flag: u32) -> (found: bool)
        ensures
            found == self.has(flag),
    {
        self.bits & flag == flag
    }

    /// Whether the directory flag is set.
    pub fn is_directory(&self) -> (found: bool)
        ensures
            found == self.has(DIRECTORY),
    {
        self.contains(DIRECTORY)
    }
}

/// `KNOWN` is exactly the union of the named flags.
pub proof fn lemma_known_is_union()
    ensures
        KNOWN == READONLY | HIDDEN | SYSTEM | DIRECTORY | ARCHIVE | DEVICE | NORMAL | TEMPORARY
            | SPARSE_FILE | REPARSE_POINT | COMPRESSED | OFFLINE | NOT_CONTENT_INDEXED | ENCRYPTED
            | INTEGRITY_STREAM | VIRTUAL | NO_SCRUB_DATA | EA | PINNED | UNPINNED | RECALL_ON_OPEN
            | RECALL_ON_DATA_ACCESS,
{
    assert(0x005F_FFF7u32 == 0x0000_0001u32 | 0x0000_0002u32 | 0x0000_0004u32 | 0x0000_0010u32
        | 0x0000_0020u32 | 0x0000_0040u32 | 0x0000_0080u32 | 0x0000_0100u32 | 0x0000_0200u32
        | 0x0000_0400u32 | 0x0000_0800u32 | 0x0000_1000u32 | 0x0000_2000u32 | 0x0000_4000u32
        | 0x0000_8000u32 | 0x0001_0000u32 | 0x0002_0000u32 | 0x0004_0000u32 | 0x0008_0000u32
        | 0x0010_0000u32 | 0x0040_0000u32 | 0x0040_0000u32) by (bit_vector);
}

/// Decoding is a truncating mask. Bits outside `KNOWN` change nothing: a
/// raw word decodes to the same with them as without them, and none of them
/// is left in what was decoded. And a flag of known bits is found after
/// decoding exactly when the raw word has it.
pub proof fn lemma_decode_truncates(raw: u32, stray: u32, flag: u32)
    requires
        stray & KNOWN == 0,
        flag & !KNOWN == 0,
    ensures
        (raw | stray) & KNOWN == raw & KNOWN,
        ((raw & KNOWN) & flag == flag) == (raw & flag == flag),
        (raw & KNOWN) & stray == 0,
{
    assert((raw & 0x005F_FFF7u32) & stray == 0) by (bit_vector)
        requires
            stray & 0x005F_FFF7u32 == 0,
    ;
    assert((raw | stray) & 0x005F_FFF7u32 == raw & 0x005F_FFF7u32) by (bit_vector)
        requires
            stray & 0x005F_FFF7u32 == 0,
    ;
    assert(((raw & 0x005F_FFF7u32) & flag == flag) == (raw & flag == flag)) by (bit_vector)
        requires
            flag & !0x005F_FFF7u32 == 0,
    ;
}

} // verus!
