//! The lexical grammar: which lexeme begins at an offset of the source, and
//! which tokens a source consists of.

use vstd::prelude::*;
use crate::chars::{is_blank, is_name_part, is_name_start, unicode_numeric};
use crate::error::{LexError, LexErrorKind};
use crate::number::{lemma_number_run_bounds, number_run, number_value, NumberState};
use crate::quoted::{lemma_string_scan_bounds, string_scan, StringScan};
use crate::token::{reserved_word, Symbol, Token, TokenView};

verus! {

/// The runs of characters that the grammar takes as a whole.
pub enum Run {
    /// Whitespace between lexemes.
    Blank,
    /// The text of a line comment.
    Comment,
    /// The characters of a name after its first.
    Name,
}

impl Run {
    /// Whether the character belongs to a run of this kind. A comment takes
    /// every character but the line feed.
    pub open spec fn takes(self, c: char) -> bool {
        match self {
            Run::Blank => is_blank(c),
            Run::Comment => c != '\n',
            Run::Name => is_name_part(c),
        }
    }
}

/// The end of the run that begins at `pos`: the offset of the first character
/// from `pos` on that the run does not take, or the length of the source if
/// it takes them all.
pub open spec fn run_end(src: Seq<char>, pos: int, run: Run) -> int
    decreases src.len() - pos,
{
    if 0 <= pos < src.len() && run.takes(src[pos]) {
        run_end(src, pos + 1, run)
    } else {
        pos
    }
}

/// What a scan found.
pub enum Scanned {
    /// A token.
    Token(TokenView),
    /// A comment, which is no token.
    Comment,
    /// A malformed lexeme.
    Failure(LexErrorKind),
}

/// One scan: what was found in the characters from `start` up to `end`.
pub struct Scan {
    pub found: Scanned,
    pub start: int,
    pub end: int,
}

/// Whether the character at `pos` is `c`.
pub open spec fn followed_by(src: Seq<char>, pos: int, c: char) -> bool {
    0 <= pos < src.len() && src[pos] == c
}

/// The scan of a symbol of `len` characters.
pub open spec fn symbol_scan(symbol: Symbol, start: int, len: int) -> Scan {
    Scan { found: Scanned::Token(TokenView::Symbol(symbol)), start, end: start + len }
}

/// The scan of a comparison or assignment: `paired` if `=` follows the first
/// character, else `alone`.
pub open spec fn paired_scan(src: Seq<char>, start: int, paired: Symbol, alone: Symbol) -> Scan {
    if followed_by(src, start + 1, '=') {
        symbol_scan(paired, start, 2)
    } else {
        symbol_scan(alone, start, 1)
    }
}

/// The scan of a name that begins at `start`: it takes every name character
/// that follows, and is a reserved word if it is spelled like one.
pub open spec fn name_scan(src: Seq<char>, start: int) -> Scan {
    let end = run_end(src, start + 1, Run::Name);
    let word = src.subrange(start, end);
    let token = match reserved_word(word) {
        Some(reserved) => TokenView::Reserved(reserved),
        None => TokenView::Name(word),
    };
    Scan { found: Scanned::Token(token), start, end }
}

/// The state and the offset with which the scan of a number goes on after the
/// first character: after `0x` or `0X` the literal is hexadecimal, after a
/// point it is a float.
pub open spec fn number_start(src: Seq<char>, start: int) -> (NumberState, int) {
    if src[start] == '0' && (followed_by(src, start + 1, 'x') || followed_by(src, start + 1, 'X')) {
        (NumberState::hexadecimal(), start + 2)
    } else {
        (NumberState::plain(src[start] == '.'), start + 1)
    }
}

/// The scan of a number literal that begins at `start`. It fails where a
/// character is rejected, at that character, and where the text taken is
/// malformed, at its end.
pub open spec fn number_scan(src: Seq<char>, start: int) -> Scan {
    let (state, pos) = number_start(src, start);
    let run = number_run(src, pos, state);
    let found = if run.rejected {
        Scanned::Failure(LexErrorKind::MalformedNumber)
    } else {
        match number_value(src.subrange(start, run.end), run.state) {
            Some(number) => Scanned::Token(TokenView::Number(number)),
            None => Scanned::Failure(LexErrorKind::MalformedNumber),
        }
    };
    Scan { found, start, end: run.end }
}

/// The scan of a string literal whose opening quote is at `start`. The
/// character at `start` is the closing quote too.
pub open spec fn quoted_scan(src: Seq<char>, start: int) -> Scan {
    match string_scan(src, start + 1, src[start]) {
        StringScan::Closed { text, end } => Scan {
            found: Scanned::Token(TokenView::String(text)),
            start,
            end,
        },
        StringScan::Unterminated => Scan {
            found: Scanned::Failure(LexErrorKind::UnterminatedString),
            start,
            end: src.len() as int,
        },
        StringScan::BadEscape { end } => Scan {
            found: Scanned::Failure(LexErrorKind::InvalidEscape),
            start,
            end,
        },
    }
}

/// The scan of the lexeme that begins with a point at `start`: a number if a
/// number character follows, else the longest of `...`, `..` and `.`.
pub open spec fn point_scan(src: Seq<char>, start: int) -> Scan {
    if start + 1 < src.len() && unicode_numeric(src[start + 1]) {
        number_scan(src, start)
    } else if followed_by(src, start + 1, '.') {
        if followed_by(src, start + 2, '.') {
            symbol_scan(Symbol::Ellipsis, start, 3)
        } else {
            symbol_scan(Symbol::Concat, start, 2)
        }
    } else {
        symbol_scan(Symbol::Dot, start, 1)
    }
}

/// The scan of the lexeme that begins at `start`, an offset within the
/// source at which no blank stands. The first character selects the kind of
/// lexeme.
pub open spec fn lexeme_scan(src: Seq<char>, start: int) -> Scan {
    let c = src[start];
    if c == '\n' {
        Scan { found: Scanned::Token(TokenView::EOL), start, end: start + 1 }
    } else if Symbol::single(c) is Some {
        symbol_scan(Symbol::single(c)->0, start, 1)
    } else if c == '-' {
        if followed_by(src, start + 1, '-') {
            Scan { found: Scanned::Comment, start, end: run_end(src, start + 2, Run::Comment) }
        } else {
            symbol_scan(Symbol::Minus, start, 1)
        }
    } else if c == '=' {
        paired_scan(src, start, Symbol::Equal, Symbol::Assign)
    } else if c == '>' {
        paired_scan(src, start, Symbol::GreaterEqual, Symbol::Greater)
    } else if c == '<' {
        paired_scan(src, start, Symbol::LessEqual, Symbol::Less)
    } else if c == '~' {
        if followed_by(src, start + 1, '=') {
            symbol_scan(Symbol::NotEqual, start, 2)
        } else {
            Scan { found: Scanned::Failure(LexErrorKind::InvalidOperator), start, end: start + 1 }
        }
    } else if c == '.' {
        point_scan(src, start)
    } else if c == '"' || c == '\'' {
        quoted_scan(src, start)
    } else if unicode_numeric(c) {
        number_scan(src, start)
    } else if is_name_start(c) {
        name_scan(src, start)
    } else {
        Scan { found: Scanned::Failure(LexErrorKind::MalformedToken), start, end: start + 1 }
    }
}

/// The scan from offset `pos`: blanks are passed over, and then either the
/// source has ended, which gives the end-of-input token, or a lexeme begins.
pub open spec fn scan_at(src: Seq<char>, pos: int) -> Scan {
    let start = run_end(src, pos, Run::Blank);
    if start >= src.len() {
        Scan { found: Scanned::Token(TokenView::EOF), start, end: start }
    } else {
        lexeme_scan(src, start)
    }
}

/// Where and why a scan failed.
pub struct Failure {
    pub kind: LexErrorKind,
    pub start: int,
    pub offset: int,
}

/// The outcome of scanning a source to its end: the tokens found, the text of
/// each, and the failure that stopped the scan, if one did.
pub struct Lexing {
    pub tokens: Seq<TokenView>,
    pub lexemes: Seq<Seq<char>>,
    pub failure: Option<Failure>,
}

impl Lexing {
    /// The same outcome with one more token in front.
    pub open spec fn after(self, token: TokenView, lexeme: Seq<char>) -> Lexing {
        Lexing {
            tokens: seq![token] + self.tokens,
            lexemes: seq![lexeme] + self.lexemes,
            failure: self.failure,
        }
    }
}

/// The tokens of the source from offset `pos` on, in the order of the source.
///
/// Scans follow one another, each from where the one before ended. A comment
/// adds nothing. The end of the input adds the end-of-input token, whose text
/// is empty, and ends the sequence. A failure ends it too: the tokens before
/// it stand, and nothing stands for the lexeme that failed.
pub open spec fn lex_from(src: Seq<char>, pos: int) -> Lexing
    decreases src.len() - pos,
    when 0 <= pos <= src.len()
    via lex_from_decreases
{
    let scan = scan_at(src, pos);
    if scan.start >= src.len() {
        Lexing { tokens: seq![TokenView::EOF], lexemes: seq![Seq::empty()], failure: None }
    } else {
        match scan.found {
            Scanned::Failure(kind) => Lexing {
                tokens: Seq::empty(),
                lexemes: Seq::empty(),
                failure: Some(Failure { kind, start: scan.start, offset: scan.end }),
            },
            Scanned::Comment => lex_from(src, scan.end),
            Scanned::Token(token) => lex_from(src, scan.end).after(
                token,
                src.subrange(scan.start, scan.end),
            ),
        }
    }
}

#[via_fn]
proof fn lex_from_decreases(src: Seq<char>, pos: int) {
    lemma_scan_at_bounds(src, pos);
}

/// The tokens of a whole source.
pub open spec fn lex(src: Seq<char>) -> Lexing {
    lex_from(src, 0)
}

/// A run ends at or after its beginning and within the source; it takes every
/// character before its end, and not the one at its end.
pub proof fn lemma_run_end(src: Seq<char>, pos: int, run: Run)
    requires
        0 <= pos <= src.len(),
    ensures
        pos <= run_end(src, pos, run) <= src.len(),
        forall|i: int| pos <= i < run_end(src, pos, run) ==> run.takes(#[trigger] src[i]),
        run_end(src, pos, run) < src.len() ==> !run.takes(src[run_end(src, pos, run)]),
    decreases src.len() - pos,
{
    if pos < src.len() && run.takes(src[pos]) {
        lemma_run_end(src, pos + 1, run);
    }
}

/// A lexeme has at least one character and ends within the source.
pub proof fn lemma_lexeme_scan_bounds(src: Seq<char>, start: int)
    requires
        0 <= start < src.len(),
    ensures
        lexeme_scan(src, start).start == start,
        start < lexeme_scan(src, start).end <= src.len(),
{
    lemma_run_end(src, start + 1, Run::Name);
    if start + 2 <= src.len() {
        lemma_run_end(src, start + 2, Run::Comment);
    }
    let (state, pos) = number_start(src, start);
    lemma_number_run_bounds(src, pos, state);
    lemma_string_scan_bounds(src, start + 1, src[start]);
}

/// A scan begins at or after the offset it was made from and ends within the
/// source. It takes at least one character, unless the input has ended.
pub proof fn lemma_scan_at_bounds(src: Seq<char>, pos: int)
    requires
        0 <= pos <= src.len(),
    ensures
        pos <= scan_at(src, pos).start <= scan_at(src, pos).end <= src.len(),
        scan_at(src, pos).start < src.len() ==> scan_at(src, pos).start < scan_at(src, pos).end,
        scan_at(src, pos).start == run_end(src, pos, Run::Blank),
{
    lemma_run_end(src, pos, Run::Blank);
    let start = run_end(src, pos, Run::Blank);
    if start < src.len() {
        lemma_lexeme_scan_bounds(src, start);
    }
}

/// The end-of-input token is found where the input has ended, and nowhere
/// else.
pub proof fn lemma_eof_at_end(src: Seq<char>, pos: int)
    requires
        0 <= pos <= src.len(),
    ensures
        scan_at(src, pos).found == Scanned::Token(TokenView::EOF) <==> scan_at(src, pos).start
            >= src.len(),
{
}

impl Scan {
    /// Whether `r` reports this scan: the token with the same view, or the
    /// failure with the same kind and offsets. A comment gives no token and
    /// no failure, so nothing reports it here.
    pub open spec fn gives(self, r: Result<Token, LexError>) -> bool {
        match self.found {
            Scanned::Token(token) => r is Ok && r->Ok_0@ == token,
            Scanned::Failure(kind) => r == Err::<Token, LexError>(self.error(kind)),
            Scanned::Comment => false,
        }
    }

    /// Whether `r` reports this scan, where `None` stands for a comment.
    pub open spec fn yields(self, r: Result<Option<Token>, LexError>) -> bool {
        match self.found {
            Scanned::Token(token) => r is Ok && r->Ok_0 is Some && r->Ok_0->0@ == token,
            Scanned::Failure(kind) => r == Err::<Option<Token>, LexError>(self.error(kind)),
            Scanned::Comment => r is Ok && r->Ok_0 is None,
        }
    }

    /// The error that reports a failure of this scan.
    pub open spec fn error(self, kind: LexErrorKind) -> LexError {
        LexError { kind, start: self.start as usize, offset: self.end as usize }
    }
}

} // verus!
