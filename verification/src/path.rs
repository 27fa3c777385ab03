//! Names and paths as the platform hands them out: strings of bytes in its
//! own encoding, which need not be valid in any other.

use vstd::prelude::*;
use vstd::slice::*;

verus! {

/// The byte that ends a name inside a name buffer.
pub const NUL: u8 = 0x00;

/// The byte between a directory's path and a name below it.
pub const SEPARATOR: u8 = 0x5C;

/// The byte that matches every name in a search pattern.
pub const WILDCARD: u8 = 0x2A;

/// The byte in front of an extension.
pub const DOT: u8 = 0x2E;

/// The least index at or after `from` at which `bytes` holds `byte`, or the
/// length of `bytes` where there is none.
pub open spec fn first_from(bytes: Seq<u8>, byte: u8, from: int) -> int
    decreases bytes.len() - from,
{
    if from >= bytes.len() {
        bytes.len() as int
    } else if bytes[from] == byte {
        from
    } else {
        first_from(bytes, byte, from + 1)
    }
}

/// The greatest index below `until` at which `bytes` holds `byte`, or `-1`
/// where there is none.
pub open spec fn last_before(bytes: Seq<u8>, byte: u8, until: int) -> int
    decreases until,
{
    if until <= 0 {
        -1
    } else if bytes[until - 1] == byte {
        until - 1
    } else {
        last_before(bytes, byte, until - 1)
    }
}

/// The name that a name buffer holds: what stands in front of its first
/// `NUL`, or all of it where it has none. The buffer may be longer than the
/// name; what follows the terminator is not read.
pub open spec fn name_in(buffer: Seq<u8>) -> Seq<u8> {
    buffer.subrange(0, first_from(buffer, NUL, 0))
}

/// The two names that every search yields for the directory itself and for
/// its parent: `.` and `..`.
pub open spec fn is_self_or_parent(name: Seq<u8>) -> bool {
    name == seq![DOT] || name == seq![DOT, DOT]
}

/// The path of `name` below the directory `parent`.
pub open spec fn child_path(parent: Seq<u8>, name: Seq<u8>) -> Seq<u8> {
    parent + seq![SEPARATOR] + name
}

/// The pattern a search is opened with to list the directory `path`: the
/// path, a separator, a wildcard and the terminator.
pub open spec fn search_pattern(path: Seq<u8>) -> Seq<u8> {
    path + seq![SEPARATOR, WILDCARD, NUL]
}

/// The extension of `name`: what follows its last dot. A name without a dot
/// has none, and neither has one that begins with a dot.
pub open spec fn extension_of(name: Seq<u8>) -> Option<Seq<u8>> {
    let dot = last_before(name, DOT, name.len() as int);
    if dot < 0 || name[0] == DOT {
        None
    } else {
        Some(name.subrange(dot + 1, name.len() as int))
    }
}

/// `first_from` finds the first occurrence at or after `from`.
pub proof fn lemma_first_from(bytes: Seq<u8>, byte: u8, from: int)
    requires
        0 <= from <= bytes.len(),
    ensures
        from <= first_from(bytes, byte, from) <= bytes.len(),
        first_from(bytes, byte, from) < bytes.len() ==> bytes[first_from(bytes, byte, from)]
            == byte,
        forall|i: int| from <= i < first_from(bytes, byte, from) ==> bytes[i] != byte,
    decreases bytes.len() - from,
{
    if from < bytes.len() && bytes[from] != byte {
        lemma_first_from(bytes, byte, from + 1);
    }
}

/// `last_before` finds the last occurrence below `until`.
pub proof fn lemma_last_before(bytes: Seq<u8>, byte: u8, until: int)
    requires
        0 <= until <= bytes.len(),
    ensures
        -1 <= last_before(bytes, byte, until) < until,
        last_before(bytes, byte, until) >= 0 ==> bytes[last_before(bytes, byte, until)] == byte,
        forall|i: int| last_before(bytes, byte, until) < i < until ==> bytes[i] != byte,
    decreases until,
{
    if until > 0 && bytes[until - 1] != byte {
        lemma_last_before(bytes, byte, until - 1);
    }
}

/// Reads the name out of a name buffer: the bytes in front of the first
/// terminator, or all of them where there is none.
pub fn read_name(buffer: &[u8]) -> (name: Vec<u8>)
    ensures
        name@ == name_in(buffer@),
        name@.len() <= buffer@.len(),
        name@ == buffer@.subrange(0, name@.len() as int),
        forall|i: int| 0 <= i < name@.len() ==> name@[i] != NUL,
        name@.len() < buffer@.len() ==> buffer@[name@.len() as int] == NUL,
{
    proof {
        lemma_first_from(buffer@, NUL, 0);
    }
    let mut end: usize = 0;
    while end < buffer.len() && buffer[end] != NUL
        invariant
            0 <= end <= buffer@.len(),
            first_from(buffer@, NUL, 0) == first_from(buffer@, NUL, end as int),
        decreases buffer@.len() - end,
    {
        end = end + 1;
    }
    slice_to_vec(slice_subrange(buffer, 0, end))
}

/// Whether `name` is `.` or `..`.
pub fn self_or_parent(name: &[u8]) -> (skip: bool)
    ensures
        skip == is_self_or_parent(name@),
{
    let skip = (name.len() == 1 && name[0] == DOT) || (name.len() == 2 && name[0] == DOT
        && name[1] == DOT);
    proof {
        if skip {
            assert(name@ =~= seq![DOT] || name@ =~= seq![DOT, DOT]);
        }
    }
    skip
}

/// Joins a directory's path and a name below it with the separator.
pub fn join(parent: &[u8], name: &[u8]) -> (path: Vec<u8>)
    ensures
        path@ == child_path(parent@, name@),
{
    let mut path = slice_to_vec(parent);
    path.push(SEPARATOR);
    let mut i: usize = 0;
    while i < name.len()
        invariant
            0 <= i <= name@.len(),
            path@ == parent@ + seq![SEPARATOR] + name@.subrange(0, i as int),
        decreases name@.len() - i,
    {
        path.push(name[i]);
        i = i + 1;
        assert(path@ =~= parent@ + seq![SEPARATOR] + name@.subrange(0, i as int));
    }
    assert(name@.subrange(0, i as int) =~= name@);
    path
}

/// Builds the pattern that lists the directory `path`.
pub fn pattern_for(path: &[u8]) -> (pattern: Vec<u8>)
    ensures
        pattern@ == search_pattern(path@),
{
    let mut pattern = slice_to_vec(path);
    pattern.push(SEPARATOR);
    pattern.push(WILDCARD);
    pattern.push(NUL);
    assert(pattern@ =~= search_pattern(path@));
    pattern
}

/// Finds the extension of `name`: what follows its last dot. A name
/// without a dot has none, and neither has one that begins with a dot.
pub fn extension<'a>(name: &'a [u8]) -> (ext: Option<&'a [u8]>)
    ensures
        ext is Some == extension_of(name@) is Some,
        ext is Some ==> ext->0@ == extension_of(name@)->0,
        ext is None <==> name@.len() == 0 || name@[0] == DOT || forall|i: int|
            0 <= i < name@.len() ==> name@[i] != DOT,
        ext matches Some(found) ==> {
            &&& found@.len() < name@.len()
            &&& name@[name@.len() - found@.len() - 1] == DOT
            &&& found@ == name@.subrange(name@.len() - found@.len(), name@.len() as int)
            &&& forall|i: int| 0 <= i < found@.len() ==> found@[i] != DOT
        },
{
    proof {
        lemma_last_before(name@, DOT, name@.len() as int);
    }
    if name.len() == 0 || name[0] == DOT {
        return None;
    }
    let mut until: usize = name.len();
    while until > 0 && name[until - 1] != DOT
        invariant
            0 <= until <= name@.len(),
            last_before(name@, DOT, name@.len() as int) == last_before(name@, DOT, until as int),
        decreases until,
    {
        until = until - 1;
    }
    if until == 0 {
        None
    } else {
        Some(slice_subrange(name, until, name.len()))
    }
}

} // verus!
