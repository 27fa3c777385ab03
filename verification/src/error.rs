//! The failures that a walk reports as values among its results.

use vstd::prelude::*;

verus! {

/// A failure met while walking. Failures are results like any other: none
/// of them ends a walk.
#[derive(Clone, Debug, PartialEq, Eq)]
pub enum Error {
    /// No search could be opened for the directory with this path.
    InvalidSearch(Vec<u8>),
    /// A raw timestamp has no calendar form.
    InvalidSystemTime,
}

/// What an [`Error`] stands for.
pub enum ErrorModel {
    InvalidSearch(Seq<u8>),
    InvalidSystemTime,
}

impl View for Error {
    type V = ErrorModel;

    open spec fn view(&self) -> ErrorModel {
        match self {
            Error::InvalidSearch(path) => ErrorModel::InvalidSearch(path@),
            Error::InvalidSystemTime => ErrorModel::InvalidSystemTime,
        }
    }
}

} // verus!
