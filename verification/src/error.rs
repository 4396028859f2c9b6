//! Why a container could not be opened.

use vstd::prelude::*;

verus! {

/// The ways in which opening a container fails.
#[derive(Debug, PartialEq, Eq)]
pub enum IvfError {
    /// The input ended before the 32 bytes of the header were read.
    TruncatedInput,
    /// A field of the header does not hold the value that the format fixes
    /// for it; the text says which.
    InvalidHeader(String),
}

/// An [`IvfError`] with its text as a sequence of characters.
pub enum IvfErrorView {
    TruncatedInput,
    InvalidHeader(Seq<char>),
}

impl View for IvfError {
    type V = IvfErrorView;

    open spec fn view(&self) -> IvfErrorView {
        match self {
            IvfError::TruncatedInput => IvfErrorView::TruncatedInput,
            IvfError::InvalidHeader(reason) => IvfErrorView::InvalidHeader(reason@),
        }
    }
}

impl Clone for IvfError {
    fn clone(&self) -> (copy: Self)
        ensures
            copy@ == self@,
    {
        match self {
            IvfError::TruncatedInput => IvfError::TruncatedInput,
            IvfError::InvalidHeader(reason) => IvfError::InvalidHeader(reason.clone()),
        }
    }
}

} // verus!
