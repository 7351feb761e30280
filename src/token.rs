//! Segments of a level spec and the characters they may hold.
use vstd::prelude::*;

use crate::error::{ErrorView, LevelSpecError};

verus! {

/// A character allowed in a segment: an ASCII letter, an ASCII digit or `_`.
pub open spec fn is_token_char(c: char) -> bool {
    ||| ('a' <= c && c <= 'z')
    ||| ('A' <= c && c <= 'Z')
    ||| ('0' <= c && c <= '9')
    ||| c == '_'
}

/// The segment holds some character that is not allowed.
pub open spec fn has_bad_char(t: Seq<char>) -> bool {
    exists|i: int| 0 <= i < t.len() && !is_token_char(#[trigger] t[i])
}

/// A well-formed segment: non-empty, and made of allowed characters only.
pub open spec fn valid_token(t: Seq<char>) -> bool {
    t.len() > 0 && !has_bad_char(t)
}

/// Executable test of [`is_token_char`].
pub fn token_char(c: char) -> (r: bool)
    ensures
        r == is_token_char(c),
{
    ('a' <= c && c <= 'z') || ('A' <= c && c <= 'Z') || ('0' <= c && c <= '9') || c == '_'
}

/// Checks that `val` holds allowed characters only, and hands it back if so.
/// An empty segment passes: emptiness is a structural matter.
pub fn chartest(val: &str) -> (r: Result<&str, LevelSpecError>)
    ensures
        !has_bad_char(val@) ==> r == Ok::<&str, LevelSpecError>(val),
        has_bad_char(val@) ==> (r matches Err(e) && e@ == ErrorView::InvalidCharacters(val@)),
{
    let n = val.unicode_len();
    let mut i: usize = 0;
    while i < n
        invariant
            n == val@.len(),
            i <= n,
            forall|k: int| 0 <= k < i ==> is_token_char(#[trigger] val@[k]),
        decreases n - i,
    {
        let c = val.get_char(i);
        if !token_char(c) {
            return Err(LevelSpecError::InvalidCharactersInInput(val.to_owned()));
        }
        i = i + 1;
    }
    Ok(val)
}

} // verus!
