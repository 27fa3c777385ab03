//! Enumeration of native directory trees: decoding of raw directory records
//! into structured entries, and the depth-bounded walk that strings them
//! together.
//!
//! The library decides and decodes; it does not touch the file system. A
//! [`Walker`] asks for one step of a directory search at a time and takes
//! what the step brought as a [`RawRecord`]. [`DirEntry::from_record`] turns
//! a record into an entry: the name out of its buffer, the path below its
//! directory, the known [`attributes`], the size from its two halves. A
//! [`Directory`] is a tree that was recorded, and [`walkdir`] walks it the
//! way a walker walks the live one.
//!
//! Names and paths are strings of bytes, as the platform hands them out.

pub mod attributes;
pub mod depth;
pub mod entry;
pub mod error;
pub mod order;
pub mod path;
pub mod record;
pub mod time;
pub mod tree;
pub mod volumes;
pub mod walker;

pub use attributes::FileAttributes;
pub use entry::DirEntry;
pub use error::Error;
pub use record::RawRecord;
pub use time::{FileTime, SystemTime, Timestamp};
pub use tree::{replay, walkdir, Child, Directory};
pub use volumes::drives;
pub use walker::{Phase, Request, Walker};
