//! Why nothing is reported of a file.

use vstd::prelude::*;

verus! {

/// Why nothing is reported of a file.
#[derive(Clone, Debug, PartialEq, Eq)]
pub enum TldrError {
    /// There is no such file or directory.
    PathNotFound(Vec<String>),
    /// The file does not lie below the base path.
    PathTraversal(Vec<String>),
    /// No language is known for the extension of the file.
    UnsupportedLanguage(String),
    /// The file could not be parsed.
    ParseError(Vec<String>),
}

/// What a [`TldrError`] says.
pub enum Refusal {
    PathNotFound(Seq<Seq<char>>),
    PathTraversal(Seq<Seq<char>>),
    UnsupportedLanguage(Seq<char>),
    ParseError(Seq<Seq<char>>),
}

impl DeepView for TldrError {
    type V = Refusal;

    open spec fn deep_view(&self) -> Refusal {
        match self {
            TldrError::PathNotFound(p) => Refusal::PathNotFound(p.deep_view()),
            TldrError::PathTraversal(p) => Refusal::PathTraversal(p.deep_view()),
            TldrError::UnsupportedLanguage(s) => Refusal::UnsupportedLanguage(s@),
            TldrError::ParseError(p) => Refusal::ParseError(p.deep_view()),
        }
    }
}

/// What is reported, or why nothing is.
pub type TldrResult<T> = Result<T, TldrError>;

} // verus!
