//! Directory entries, and how one is built from a raw record.

use crate::attributes::{FileAttributes, DIRECTORY, KNOWN};
use crate::error::{Error, ErrorModel};
use crate::path::{
    child_path, extension, extension_of, is_self_or_parent, join, lemma_first_from, read_name,
    self_or_parent, DOT, NUL, SEPARATOR,
};
use crate::record::{RawRecord, RecordModel};
use crate::time::{join_words, SystemTime};
use vstd::prelude::*;

verus! {

/// One object of the file system.
#[derive(Clone, Debug, PartialEq, Eq)]
pub struct DirEntry {
    pub name: Vec<u8>,
    pub path: Vec<u8>,
    pub date_created: SystemTime,
    pub last_access: SystemTime,
    pub last_write: SystemTime,
    pub attributes: FileAttributes,
    /// Size in bytes. A folder has none; a file always has one, be it zero.
    pub size: Option<u64>,
}

/// What a [`DirEntry`] stands for.
pub struct EntryModel {
    pub name: Seq<u8>,
    pub path: Seq<u8>,
    pub date_created: SystemTime,
    pub last_access: SystemTime,
    pub last_write: SystemTime,
    pub attributes: u32,
    pub size: Option<u64>,
}

impl EntryModel {
    /// Whether the directory flag is among the attributes.
    pub open spec fn is_folder(self) -> bool {
        self.attributes & DIRECTORY == DIRECTORY
    }

    /// What holds of every entry built from a record: its name is not `.`
    /// or `..` and holds no terminator, its path ends in a separator and
    /// the name, its attributes are known ones, and it has a size exactly
    /// if it is no folder.
    pub open spec fn well_formed(self) -> bool {
        &&& !is_self_or_parent(self.name)
        &&& forall|i: int| 0 <= i < self.name.len() ==> self.name[i] != NUL
        &&& self.path.len() > self.name.len()
        &&& self.path[self.path.len() - self.name.len() - 1] == SEPARATOR
        &&& self.path.subrange(self.path.len() - self.name.len(), self.path.len() as int)
            == self.name
        &&& self.attributes & !KNOWN == 0
        &&& self.size is None == self.is_folder()
    }
}

impl View for DirEntry {
    type V = EntryModel;

    open spec fn view(&self) -> EntryModel {
        EntryModel {
            name: self.name@,
            path: self.path@,
            date_created: self.date_created,
            last_access: self.last_access,
            last_write: self.last_write,
            attributes: self.attributes@,
            size: self.size,
        }
    }
}

/// The result for one record: an entry, or the failure to build one.
pub type Outcome = Result<EntryModel, ErrorModel>;

/// What an executable result stands for.
pub open spec fn outcome_of(result: Result<DirEntry, Error>) -> Outcome {
    match result {
        Ok(entry) => Ok(entry@),
        Err(error) => Err(error@),
    }
}

/// What a list of executable results stands for.
pub open spec fn outcomes_of(results: Seq<Result<DirEntry, Error>>) -> Seq<Outcome> {
    results.map_values(|result: Result<DirEntry, Error>| outcome_of(result))
}

/// Whether every entry among `results` is well formed.
pub open spec fn entries_well_formed(results: Seq<Outcome>) -> bool {
    forall|i: int|
        0 <= i < results.len() ==> (#[trigger] results[i] matches Ok(entry)
            ==> entry.well_formed())
}

/// The entry for `record`, found in the directory `parent`.
///
/// `None` for the records named `.` and `..`, which are no entries. A record
/// with a timestamp that has no calendar form gives `InvalidSystemTime`. Any
/// other gives an entry: the name read from the buffer, the path below
/// `parent`, the attributes masked to the known ones, and the size put
/// together from its two halves unless the record is a folder.
pub open spec fn build(parent: Seq<u8>, record: RecordModel) -> Option<Outcome> {
    if record.is_self_or_parent() {
        None
    } else if !record.has_dates() {
        Some(Err(ErrorModel::InvalidSystemTime))
    } else {
        Some(
            Ok(
                EntryModel {
                    name: record.name(),
                    path: child_path(parent, record.name()),
                    date_created: record.creation_time.resolved()->0,
                    last_access: record.last_access_time.resolved()->0,
                    last_write: record.last_write_time.resolved()->0,
                    attributes: record.attributes(),
                    size: if record.is_folder() {
                        None
                    } else {
                        Some(record.size())
                    },
                },
            ),
        )
    }
}

/// Every entry that `build` gives is well formed.
pub proof fn lemma_build_well_formed(parent: Seq<u8>, record: RecordModel)
    ensures
        build(parent, record) matches Some(Ok(entry)) ==> entry.well_formed(),
{
    let raw = record.file_attributes;
    assert((raw & KNOWN) & !KNOWN == 0) by (bit_vector);
    lemma_first_from(record.file_name, NUL, 0);
    if let Some(Ok(entry)) = build(parent, record) {
        assert(entry.path.subrange(entry.path.len() - entry.name.len(), entry.path.len() as int)
            =~= entry.name);
    }
}

impl DirEntry {
    /// Builds the entry for `record`, found in the directory `parent`.
    pub fn from_record(parent: &[u8], record: &RawRecord) -> (built: Option<
        Result<DirEntry, Error>,
    >)
        ensures
            built is Some == build(parent@, record@) is Some,
            built is Some ==> outcome_of(built->0) == build(parent@, record@)->0,
            built matches Some(Ok(entry)) ==> entry@.well_formed(),
    {
        proof {
            lemma_build_well_formed(parent@, record@);
        }
        let name = read_name(record.file_name.as_slice());
        if self_or_parent(name.as_slice()) {
            return None;
        }
        let date_created = match record.creation_time.resolve() {
            Ok(time) => time,
            Err(error) => { return Some(Err(error)); },
        };
        let last_access = match record.last_access_time.resolve() {
            Ok(time) => time,
            Err(error) => { return Some(Err(error)); },
        };
        let last_write = match record.last_write_time.resolve() {
            Ok(time) => time,
            Err(error) => { return Some(Err(error)); },
        };
        let attributes = FileAttributes::decode(record.file_attributes);
        let size = if attributes.is_directory() {
            None
        } else {
            Some(join_words(record.file_size_high, record.file_size_low))
        };
        let path = join(parent, name.as_slice());
        Some(Ok(DirEntry { name, path, date_created, last_access, last_write, attributes, size }))
    }

    /// The full path: the parent directory's path joined with the name.
    pub fn path(&self) -> (path: &[u8])
        ensures
            path@ == self@.path,
    {
        self.path.as_slice()
    }

    /// Whether this entry is a folder: whether its attributes hold the
    /// directory flag. The size has no say in it.
    pub fn is_folder(&self) -> (folder: bool)
        ensures
            folder == self@.is_folder(),
    {
        self.attributes.is_directory()
    }

    /// The extension of the name: what follows its last dot. A name without
    /// a dot has none, and neither has one that begins with a dot.
    pub fn extension(&self) -> (ext: Option<&[u8]>)
        ensures
            ext is Some == extension_of(self@.name) is Some,
            ext is Some ==> ext->0@ == extension_of(self@.name)->0,
            ext is None <==> self@.name.len() == 0 || self@.name[0] == DOT || forall|i: int|
                0 <= i < self@.name.len() ==> self@.name[i] != DOT,
    {
        extension(self.name.as_slice())
    }
}

} // verus!
