//! Errors reported while building a level spec.
use vstd::prelude::*;

verus! {

/// What went wrong while building a level spec.
#[derive(Debug, Clone, PartialEq, Eq)]
pub enum LevelSpecError {
    /// The segments supplied do not form a show, a sequence or a shot.
    InvalidInputError(String),
    /// A segment holds a character other than an ASCII letter, digit or `_`;
    /// the segment is carried verbatim.
    InvalidCharactersInInput(String),
}

/// The mathematical content of a [`LevelSpecError`]: the kind of failure, and
/// for a bad segment the segment itself. The message of a structural error
/// is descriptive only and is not part of it.
pub enum ErrorView {
    InvalidInput,
    InvalidCharacters(Seq<char>),
}

impl View for LevelSpecError {
    type V = ErrorView;

    open spec fn view(&self) -> ErrorView {
        match self {
            LevelSpecError::InvalidInputError(_) => ErrorView::InvalidInput,
            LevelSpecError::InvalidCharactersInInput(t) => ErrorView::InvalidCharacters(t@),
        }
    }
}

impl LevelSpecError {
    /// The message carried by the error: a description of the failed call,
    /// or the offending segment.
    pub fn message(&self) -> (r: String)
        ensures
            self is InvalidCharactersInInput ==> r@ == self->InvalidCharactersInInput_0@,
            self is InvalidInputError ==> r@ == self->InvalidInputError_0@,
    {
        match self {
            LevelSpecError::InvalidInputError(m) => m.clone(),
            LevelSpecError::InvalidCharactersInInput(t) => t.clone(),
        }
    }
}

} // verus!
