//! Failures of the lexical analysis.

use vstd::prelude::*;

verus! {

/// Why a lexeme could not be recognized.
#[derive(Clone, Copy, Debug, PartialEq, Eq)]
pub enum LexErrorKind {
    /// The character cannot begin any lexeme.
    MalformedToken,
    /// A digit, sign, point or marker stands where the number grammar does
    /// not allow it, or the literal is worth more than 64 bits hold.
    MalformedNumber,
    /// The input ended before the closing quote of a string.
    UnterminatedString,
    /// A backslash in a string is followed by a character that is no escape.
    InvalidEscape,
    /// A `~` is not followed by `=`.
    InvalidOperator,
}

/// A failed scan: what went wrong in the lexeme that begins at `start`, and
/// the offset at which scanning stopped. Offsets count characters from the
/// beginning of the source.
#[derive(Clone, Copy, Debug, PartialEq, Eq)]
pub struct LexError {
    pub kind: LexErrorKind,
    pub start: usize,
    pub offset: usize,
}

} // verus!
