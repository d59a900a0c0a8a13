//! String literals: where they end and what they decode to.

use vstd::prelude::*;

verus! {

/// The character that an escape sequence stands for, given the character
/// after the backslash: `\\`, `\n`, `\'` and `\"` are the escapes.
pub open spec fn unescape(c: char) -> Option<char> {
    if c == '\\' {
        Some('\\')
    } else if c == 'n' {
        Some('\n')
    } else if c == '\'' {
        Some('\'')
    } else if c == '"' {
        Some('"')
    } else {
        None
    }
}

/// The character that an escape sequence stands for, if `c` after a backslash
/// makes one.
pub fn escaped(c: char) -> (r: Option<char>)
    ensures
        r == unescape(c),
{
    match c {
        '\\' => Some('\\'),
        'n' => Some('\n'),
        '\'' => Some('\''),
        '"' => Some('"'),
        _ => None,
    }
}

/// How the scan of a string body ends.
pub enum StringScan {
    /// The closing quote was found: the decoded text and the offset after
    /// the quote.
    Closed { text: Seq<char>, end: int },
    /// The input ended first.
    Unterminated,
    /// A backslash was followed by a character that is no escape; `end` is
    /// the offset after that character.
    BadEscape { end: int },
}

impl StringScan {
    /// The same outcome for a body that has `head` in front of it, where
    /// `head` is already decoded.
    pub open spec fn after(self, head: Seq<char>) -> StringScan {
        match self {
            StringScan::Closed { text, end } => StringScan::Closed { text: head + text, end },
            other => other,
        }
    }
}

/// The scan of a string body that begins at `pos`, after the opening quote.
///
/// The body runs to the first `quote` that is not part of an escape sequence.
/// A backslash and the character after it decode to one character; every
/// other character stands for itself. A backslash that is the last character
/// of the input leaves the string unterminated.
pub open spec fn string_scan(src: Seq<char>, pos: int, quote: char) -> StringScan
    decreases src.len() - pos,
{
    if pos < 0 || pos >= src.len() {
        StringScan::Unterminated
    } else if src[pos] == quote {
        StringScan::Closed { text: Seq::empty(), end: pos + 1 }
    } else if src[pos] == '\\' {
        if pos + 1 >= src.len() {
            StringScan::Unterminated
        } else {
            match unescape(src[pos + 1]) {
                Some(c) => string_scan(src, pos + 2, quote).after(seq![c]),
                None => StringScan::BadEscape { end: pos + 2 },
            }
        }
    } else {
        string_scan(src, pos + 1, quote).after(seq![src[pos]])
    }
}

/// A closed string ends after its body began and within the source; a bad
/// escape likewise.
pub proof fn lemma_string_scan_bounds(src: Seq<char>, pos: int, quote: char)
    requires
        0 <= pos <= src.len(),
    ensures
        match string_scan(src, pos, quote) {
            StringScan::Closed { text, end } => pos < end <= src.len(),
            StringScan::BadEscape { end } => pos + 2 <= end <= src.len(),
            StringScan::Unterminated => true,
        },
    decreases src.len() - pos,
{
    if pos < src.len() && src[pos] != quote {
        if src[pos] == '\\' {
            if pos + 1 < src.len() && unescape(src[pos + 1]) is Some {
                lemma_string_scan_bounds(src, pos + 2, quote);
            }
        } else {
            lemma_string_scan_bounds(src, pos + 1, quote);
        }
    }
}

/// Decoding `head` and then `next` before an outcome is decoding both at once.
pub proof fn lemma_after_after(scan: StringScan, head: Seq<char>, next: Seq<char>)
    ensures
        scan.after(next).after(head) == scan.after(head + next),
{
    match scan {
        StringScan::Closed { text, end } => {
            assert(head + (next + text) =~= (head + next) + text);
        },
        _ => {},
    }
}

} // verus!
