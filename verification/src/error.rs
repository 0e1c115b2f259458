//! The errors the library itself can report. Failures of files, transport
//! or terminal happen outside the library and carry their own errors there.

use vstd::prelude::*;

verus! {

/// What went wrong inside the library's own logic.
#[derive(Debug, PartialEq, Eq)]
pub enum Error {
    /// An argument named no known flag.
    ArgumentError(String),
    /// A list kind was named by a string that names none.
    ListError(String),
    /// A sort direction was named by a string that names none.
    SortError(String),
}

/// The mathematical value of an [`Error`].
pub ghost enum ErrorV {
    ArgumentError(Seq<char>),
    ListError(Seq<char>),
    SortError(Seq<char>),
}

impl View for Error {
    type V = ErrorV;

    open spec fn view(&self) -> ErrorV {
        match self {
            Error::ArgumentError(v) => ErrorV::ArgumentError(v@),
            Error::ListError(v) => ErrorV::ListError(v@),
            Error::SortError(v) => ErrorV::SortError(v@),
        }
    }
}

/// The message [`Error::message`] renders.
pub open spec fn spec_message(e: Error) -> Seq<char> {
    match e {
        Error::ArgumentError(v) => "Unknown argument "@ + v@
            + ". Use --help to see all options"@,
        Error::ListError(v) => "Unknown list type "@ + v@ + ". allowed values: manga, anime"@,
        Error::SortError(v) => "Unknown sort type "@ + v@ + ". allowed values: asc, desc"@,
    }
}

impl Error {
    /// A line describing the error, for the caller to print.
    pub fn message(&self) -> (r: String)
        ensures
            r@ == spec_message(*self),
    {
        match self {
            Error::ArgumentError(v) => String::from_str("Unknown argument ").concat(v.as_str())
                .concat(". Use --help to see all options"),
            Error::ListError(v) => String::from_str("Unknown list type ").concat(v.as_str())
                .concat(". allowed values: manga, anime"),
            Error::SortError(v) => String::from_str("Unknown sort type ").concat(v.as_str())
                .concat(". allowed values: asc, desc"),
        }
    }
}

} // verus!
