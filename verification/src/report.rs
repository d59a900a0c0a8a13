//! The printed form of a token: one line with its category and its text.

use vstd::prelude::*;
use vstd::string::StringExecFns;
use crate::token::{Token, TokenView};

verus! {

/// The category tag of a token. The end of the input has none.
pub open spec fn tag(token: TokenView) -> Seq<char> {
    match token {
        TokenView::Reserved(_) => "[RESERVED]"@,
        TokenView::Number(_) => "[NUMBER]"@,
        TokenView::String(_) => "[STRING]"@,
        TokenView::Symbol(_) => "[SYMBOL]"@,
        TokenView::Name(_) => "[NAME]"@,
        TokenView::EOL => "[EOL]"@,
        TokenView::EOF => Seq::empty(),
    }
}

/// The text that is printed after the tag: a reserved word as it is spelled,
/// a name as it reads, a number, string or symbol as the source has it. A
/// line feed has no text, nor has the end of the input.
pub open spec fn shown_text(token: TokenView, lexeme: Seq<char>) -> Option<Seq<char>> {
    match token {
        TokenView::Reserved(word) => Some(word.spelling()),
        TokenView::Name(text) => Some(text),
        TokenView::Number(_) => Some(lexeme),
        TokenView::String(_) => Some(lexeme),
        TokenView::Symbol(_) => Some(lexeme),
        TokenView::EOL => None,
        TokenView::EOF => None,
    }
}

/// The line that reports a token read from `lexeme`: the tag, and after a
/// space the text where the token has one. The end of the input is not
/// reported.
pub open spec fn report_line(token: TokenView, lexeme: Seq<char>) -> Option<Seq<char>> {
    if token is EOF {
        None
    } else {
        match shown_text(token, lexeme) {
            Some(text) => Some(tag(token) + " "@ + text),
            None => Some(tag(token)),
        }
    }
}

/// The lines that report the tokens, in their order: `lexemes[i]` is the text
/// that `tokens[i]` was read from.
pub open spec fn report_lines(tokens: Seq<TokenView>, lexemes: Seq<Seq<char>>) -> Seq<Seq<char>>
    decreases tokens.len(),
{
    if tokens.len() == 0 || lexemes.len() != tokens.len() {
        Seq::empty()
    } else {
        let before = report_lines(tokens.drop_last(), lexemes.drop_last());
        match report_line(tokens.last(), lexemes.last()) {
            Some(line) => before.push(line),
            None => before,
        }
    }
}

impl Token {
    /// The category tag of the token; empty for the end of the input.
    pub fn tag(&self) -> (r: &'static str)
        ensures
            r@ == tag(self@),
    {
        match self {
            Token::Reserved(_) => "[RESERVED]",
            Token::Number(_) => "[NUMBER]",
            Token::String(_) => "[STRING]",
            Token::Symbol(_) => "[SYMBOL]",
            Token::Name(_) => "[NAME]",
            Token::EOL => "[EOL]",
            Token::EOF => {
                proof {
                    reveal_strlit("");
                }
                assert(""@ =~= Seq::<char>::empty());
                ""
            },
        }
    }

    /// The line that reports the token, given the text it was read from;
    /// `None` for the end of the input.
    pub fn report_line(&self, lexeme: &str) -> (r: Option<String>)
        ensures
            match report_line(self@, lexeme@) {
                Some(line) => r is Some && r->0@ == line,
                None => r is None,
            },
    {
        let text: &str = match self {
            Token::EOF => {
                return None;
            },
            Token::EOL => {
                return Some(String::from_str(self.tag()));
            },
            Token::Reserved(word) => word.text(),
            Token::Name(name) => name.as_str(),
            _ => lexeme,
        };
        let mut line = String::from_str(self.tag());
        line.append(" ");
        line.append(text);
        Some(line)
    }
}

} // verus!
