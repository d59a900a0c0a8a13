//! What holds of every source: laws of the lexical grammar.

use vstd::prelude::*;
use crate::chars::{is_name_part, is_name_start, unicode_whitespace};
use crate::error::LexError;
use crate::grammar::{followed_by, lex, lex_from, lexeme_scan, number_start, run_end, scan_at};
use crate::grammar::{lemma_run_end, lemma_scan_at_bounds, Run, Scanned};
use crate::lexer::LexerView;
use crate::number::{integer_value, is_float_text};
use crate::number::{lemma_number_run_bounds, lemma_number_run_keeps_radix};
use crate::token::{lemma_reserved_word_spelling, reserved_word, NumberView, TokenView};

verus! {

/// The number of line feeds in the source from offset `pos` on.
pub open spec fn line_feeds(src: Seq<char>, pos: int) -> nat
    decreases src.len() - pos,
{
    if 0 <= pos < src.len() {
        if src[pos] == '\n' {
            1 + line_feeds(src, pos + 1)
        } else {
            line_feeds(src, pos + 1)
        }
    } else {
        0
    }
}

/// A sequence of `n` line-feed tokens.
pub open spec fn line_breaks(n: nat) -> Seq<TokenView> {
    Seq::new(n, |i: int| TokenView::EOL)
}

/// No line feed stands among the blanks that a scan passes over.
proof fn lemma_blanks_hold_no_line_feed(src: Seq<char>, pos: int)
    requires
        0 <= pos <= src.len(),
    ensures
        line_feeds(src, pos) == line_feeds(src, run_end(src, pos, Run::Blank)),
    decreases src.len() - pos,
{
    if pos < src.len() && Run::Blank.takes(src[pos]) {
        lemma_blanks_hold_no_line_feed(src, pos + 1);
    }
}

/// Where the source from `pos` on holds nothing but whitespace, its tokens
/// are one line-feed token for each line feed, and then the end-of-input
/// token; the scan does not fail.
pub proof fn lemma_blank_source_from(src: Seq<char>, pos: int)
    requires
        0 <= pos <= src.len(),
        forall|i: int| pos <= i < src.len() ==> src[i] == '\n' || unicode_whitespace(#[trigger] src[i]),
    ensures
        lex_from(src, pos).failure is None,
        lex_from(src, pos).tokens == line_breaks(line_feeds(src, pos)).push(TokenView::EOF),
    decreases src.len() - pos,
{
    lemma_scan_at_bounds(src, pos);
    lemma_blanks_hold_no_line_feed(src, pos);
    let start = run_end(src, pos, Run::Blank);
    if start >= src.len() {
        assert(lex_from(src, pos).tokens =~= line_breaks(0).push(TokenView::EOF));
    } else {
        lemma_run_end(src, pos, Run::Blank);
        assert(src[start] == '\n');
        lemma_blank_source_from(src, start + 1);
        let rest = line_feeds(src, start + 1);
        assert(seq![TokenView::EOL] + line_breaks(rest).push(TokenView::EOF) =~= line_breaks(
            rest + 1,
        ).push(TokenView::EOF));
    }
}

/// A source that holds nothing but whitespace scans to one line-feed token
/// for each of its line feeds, followed by the end-of-input token.
pub proof fn lemma_blank_source(src: Seq<char>)
    requires
        forall|i: int| 0 <= i < src.len() ==> src[i] == '\n' || unicode_whitespace(#[trigger] src[i]),
    ensures
        lex(src).failure is None,
        lex(src).tokens == line_breaks(line_feeds(src, 0)).push(TokenView::EOF),
{
    lemma_blank_source_from(src, 0);
}

/// Scanning is a function of the source: two fresh lexers over the same
/// source end in the same state, with the same tokens and the same result.
pub proof fn lemma_scan_is_repeatable(
    src: Seq<char>,
    first: LexerView,
    second: LexerView,
    first_result: Result<(), LexError>,
    second_result: Result<(), LexError>,
)
    requires
        LexerView::fresh(src).scans_to(first, first_result),
        LexerView::fresh(src).scans_to(second, second_result),
    ensures
        first == second,
        first_result == second_result,
{
}

/// A name is the longest run of name characters at its place: whenever a
/// scan finds a reserved word or a name, the lexeme begins with a name-start
/// character, consists of name characters, and is not followed by one. It is
/// a reserved word exactly when the whole lexeme is spelled like one.
pub proof fn lemma_name_is_longest_match(src: Seq<char>, pos: int)
    requires
        0 <= pos <= src.len(),
        scan_at(src, pos).found matches Scanned::Token(token) && (token is Reserved || token is Name),
    ensures
        ({
            let scan = scan_at(src, pos);
            let word = src.subrange(scan.start, scan.end);
            &&& pos <= scan.start < scan.end <= src.len()
            &&& is_name_start(src[scan.start])
            &&& forall|i: int| scan.start < i < scan.end ==> is_name_part(#[trigger] src[i])
            &&& scan.end < src.len() ==> !is_name_part(src[scan.end])
            &&& match scan.found {
                Scanned::Token(TokenView::Reserved(reserved)) => word == reserved.spelling(),
                Scanned::Token(TokenView::Name(text)) => text == word && reserved_word(word) is None,
                _ => false,
            }
        }),
{
    lemma_scan_at_bounds(src, pos);
    let scan = scan_at(src, pos);
    lemma_run_end(src, scan.start + 1, Run::Name);
    let word = src.subrange(scan.start, scan.end);
    if reserved_word(word) is Some {
        lemma_reserved_word_spelling(word, reserved_word(word)->0);
    }
}

/// A comment is no token, and the line feed after it is one: where a scan
/// meets `--`, it finds a comment that runs up to the next line feed or to
/// the end of the source, the tokens of the source are those after the
/// comment, and the scan after it finds the line feed, if there is one.
pub proof fn lemma_comment_is_no_token(src: Seq<char>, pos: int)
    requires
        0 <= pos <= src.len(),
        followed_by(src, run_end(src, pos, Run::Blank), '-'),
        followed_by(src, run_end(src, pos, Run::Blank) + 1, '-'),
    ensures
        ({
            let scan = scan_at(src, pos);
            &&& scan.found == Scanned::Comment
            &&& scan.start + 2 <= scan.end <= src.len()
            &&& forall|i: int| scan.start <= i < scan.end ==> #[trigger] src[i] != '\n'
            &&& lex_from(src, pos) == lex_from(src, scan.end)
            &&& scan.end < src.len() ==> {
                &&& src[scan.end] == '\n'
                &&& scan_at(src, scan.end).found == Scanned::Token(TokenView::EOL)
                &&& scan_at(src, scan.end).start == scan.end
                &&& scan_at(src, scan.end).end == scan.end + 1
            }
        }),
{
    lemma_scan_at_bounds(src, pos);
    let scan = scan_at(src, pos);
    lemma_run_end(src, scan.start + 2, Run::Comment);
    assert(scan == lexeme_scan(src, scan.start));
}

/// A number token holds what its lexeme denotes. A float holds the lexeme
/// itself, which is a well-formed decimal literal. An integer holds the value
/// of the lexeme read as decimal digits, or, where the lexeme begins with
/// `0x` or `0X`, of what follows that prefix read as hexadecimal digits.
pub proof fn lemma_number_is_its_lexeme(src: Seq<char>, pos: int)
    requires
        0 <= pos <= src.len(),
        scan_at(src, pos).found matches Scanned::Token(token) && token is Number,
    ensures
        ({
            let scan = scan_at(src, pos);
            let text = src.subrange(scan.start, scan.end);
            match scan.found {
                Scanned::Token(TokenView::Number(NumberView::Float(held))) => {
                    &&& held == text
                    &&& is_float_text(text)
                },
                Scanned::Token(TokenView::Number(NumberView::Integer(n))) => {
                    ||| integer_value(text, 10) == Some(n)
                    ||| {
                        &&& text.len() > 2
                        &&& text[0] == '0'
                        &&& (text[1] == 'x' || text[1] == 'X')
                        &&& integer_value(text.skip(2), 16) == Some(n)
                    }
                },
                _ => false,
            }
        }),
{
    lemma_scan_at_bounds(src, pos);
    let scan = scan_at(src, pos);
    let (state, first) = number_start(src, scan.start);
    lemma_number_run_bounds(src, first, state);
    lemma_number_run_keeps_radix(src, first, state);
}

} // verus!
