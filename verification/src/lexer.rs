//! The lexer: a cursor over the source that recognizes one lexeme at a time.

use vstd::prelude::*;
use vstd::slice::slice_subrange;
use crate::chars::{blank, is_name_part, is_name_start};
use crate::error::{LexError, LexErrorKind};
use crate::grammar::{followed_by, lex_from, name_scan, number_scan, number_start, paired_scan};
use crate::grammar::{lemma_eof_at_end, lemma_scan_at_bounds};
use crate::grammar::{quoted_scan, run_end, scan_at, Run, Scan, Scanned};
use crate::number::{float_text, parse_decimal, parse_hex};
use crate::number::{lemma_number_run_bounds, number_run, NumberRun, NumberState, NumberStep};
use crate::quoted::{escaped, string_scan, unescape, StringScan};
use crate::quoted::{lemma_after_after, lemma_string_scan_bounds};
use crate::report::report_lines;
use crate::token::{text_views, token_views, Number, ReservedWord, Symbol, Token, TokenView};

verus! {

/// Assumed, not proved: `String::push` appends the character to the end of
/// the string, so the characters afterwards are those before followed by `c`.
pub assume_specification[ std::string::String::push ](s: &mut std::string::String, c: char)
    ensures
        final(s)@ == old(s)@.push(c),
;

/// A lexer over one source text.
///
/// It holds the source as characters, the lexeme under way as the offsets
/// `start` and `current`, and the tokens found so far, each with the text it
/// was read from.
pub struct Lexer {
    source: Vec<char>,
    token_list: Vec<Token>,
    lexemes: Vec<String>,
    current: usize,
    start: usize,
}

/// What a [`Lexer`] holds, as mathematical values.
pub struct LexerView {
    /// The source.
    pub source: Seq<char>,
    /// The tokens found so far.
    pub tokens: Seq<TokenView>,
    /// The text of each token found so far.
    pub lexemes: Seq<Seq<char>>,
    /// The offset at which the lexeme under way begins.
    pub start: int,
    /// The offset of the next character to be read.
    pub current: int,
}

impl LexerView {
    /// The offsets are in order and within the source, and every token has
    /// its text.
    pub open spec fn wf(self) -> bool {
        &&& 0 <= self.start <= self.current <= self.source.len()
        &&& self.tokens.len() == self.lexemes.len()
    }

    /// The lexer before it has read anything of `source`.
    pub open spec fn fresh(source: Seq<char>) -> LexerView {
        LexerView { source, tokens: Seq::empty(), lexemes: Seq::empty(), start: 0, current: 0 }
    }

    /// The same lexer with the cursor at `current`.
    pub open spec fn moved_to(self, current: int) -> LexerView {
        LexerView { current, ..self }
    }

    /// The character at offset `i`, or NUL where the source has none.
    pub open spec fn char_at(self, i: int) -> char {
        if 0 <= i < self.source.len() {
            self.source[i]
        } else {
            '\0'
        }
    }

    /// The text of the lexeme under way.
    pub open spec fn word(self) -> Seq<char> {
        self.source.subrange(self.start, self.current)
    }

    /// Whether scanning this lexer to the end of its source leaves it as
    /// `post` and returns `r`.
    ///
    /// The tokens of the source from the cursor on, and their texts, are
    /// added to those found before, in the order of the source. Where the
    /// source is scanned to its end, the last token is the end-of-input
    /// token, the result is `Ok` and both offsets are at the end. Where a
    /// lexeme is malformed, the result is the error, the tokens before it
    /// stand, and the offsets are those of the error.
    pub open spec fn scans_to(self, post: LexerView, r: Result<(), LexError>) -> bool {
        let lexing = lex_from(self.source, self.current);
        &&& post.source == self.source
        &&& post.tokens == self.tokens + lexing.tokens
        &&& post.lexemes == self.lexemes + lexing.lexemes
        &&& match lexing.failure {
            Some(failure) => {
                &&& r == Err::<(), LexError>(
                    LexError {
                        kind: failure.kind,
                        start: failure.start as usize,
                        offset: failure.offset as usize,
                    },
                )
                &&& post.start == failure.start
                &&& post.current == failure.offset
            },
            None => {
                &&& r == Ok::<(), LexError>(())
                &&& post.start == self.source.len()
                &&& post.current == self.source.len()
            },
        }
    }
}

impl View for Lexer {
    type V = LexerView;

    closed spec fn view(&self) -> LexerView {
        LexerView {
            source: self.source@,
            tokens: token_views(self.token_list@),
            lexemes: text_views(self.lexemes@),
            start: self.start as int,
            current: self.current as int,
        }
    }
}

impl Lexer {
    /// The invariant of a lexer: see [`LexerView::wf`].
    pub open spec fn wf(&self) -> bool {
        self@.wf()
    }

    /// A lexer at the beginning of `source`.
    pub fn new(source: String) -> (lexer: Lexer)
        ensures
            lexer@ == LexerView::fresh(source@),
            lexer.wf(),
    {
        let text: &str = source.as_str();
        let mut chars: Vec<char> = Vec::new();
        for c in it: text.chars()
            invariant
                chars@ == it.seq().take(it.index()),
        {
            chars.push(c);
        }
        assert(chars@ == source@);
        let lexer = Lexer {
            source: chars,
            token_list: Vec::new(),
            lexemes: Vec::new(),
            current: 0,
            start: 0,
        };
        assert(lexer@.tokens =~= Seq::empty());
        assert(lexer@.lexemes =~= Seq::empty());
        lexer
    }

    /// The tokens found so far.
    pub fn tokens(&self) -> (r: &Vec<Token>)
        ensures
            token_views(r@) == self@.tokens,
    {
        &self.token_list
    }

    /// The text of each token found so far: `lexemes()[i]` is what
    /// `tokens()[i]` was read from.
    pub fn lexemes(&self) -> (r: &Vec<String>)
        ensures
            text_views(r@) == self@.lexemes,
    {
        &self.lexemes
    }

    /// The offset at which the lexeme under way begins.
    pub fn start(&self) -> (r: usize)
        ensures
            r == self@.start,
    {
        self.start
    }

    /// The offset of the next character to be read.
    pub fn current(&self) -> (r: usize)
        ensures
            r == self@.current,
    {
        self.current
    }

    /// The text of the lexeme under way: the source from `start` up to
    /// `current`.
    pub fn extract_word(&self) -> (word: String)
        requires
            self.wf(),
        ensures
            word@ == self@.word(),
    {
        let mut word = String::new();
        let mut i: usize = self.start;
        while i < self.current
            invariant
                self.wf(),
                self.start <= i <= self.current,
                word@ == self.source@.subrange(self.start as int, i as int),
            decreases self.current - i,
        {
            word.push(self.source[i]);
            proof {
                assert(self.source@.subrange(self.start as int, i + 1) =~= self.source@.subrange(
                    self.start as int,
                    i as int,
                ).push(self.source@[i as int]));
            }
            i += 1;
        }
        word
    }

    /// Whether `ch` may stand in a name: as its first character if `start`,
    /// else after the first. A name begins with a letter or an underscore
    /// and goes on with letters, numbers and underscores.
    pub fn is_name_char(ch: char, start: bool) -> (r: bool)
        ensures
            r == if start {
                is_name_start(ch)
            } else {
                is_name_part(ch)
            },
    {
        if ch.is_alphabetic() || ch == '_' {
            true
        } else {
            !start && ch.is_numeric()
        }
    }

    /// Whether every character has been read.
    pub fn is_at_end(&self) -> (r: bool)
        ensures
            r == (self@.current >= self@.source.len()),
    {
        self.current >= self.source.len()
    }

    /// Reads the next character, or NUL where the source has ended.
    fn advance(&mut self) -> (c: char)
        requires
            old(self).wf(),
        ensures
            final(self).wf(),
            c == old(self)@.char_at(old(self)@.current),
            final(self)@ == old(self)@.moved_to(
                if old(self)@.current < old(self)@.source.len() {
                    old(self)@.current + 1
                } else {
                    old(self)@.current
                },
            ),
    {
        if self.is_at_end() {
            '\0'
        } else {
            assert(self.current < self.source.len());
            self.current += 1;
            self.source[self.current - 1]
        }
    }

    /// The character read last, or NUL where none has been read.
    fn previous(&self) -> (c: char)
        requires
            self.wf(),
        ensures
            c == self@.char_at(self@.current - 1),
    {
        if self.current == 0 {
            '\0'
        } else {
            self.source[self.current - 1]
        }
    }

    /// The next character, or NUL where the source has ended.
    fn peek(&self) -> (c: char)
        requires
            self.wf(),
        ensures
            c == self@.char_at(self@.current),
    {
        if self.is_at_end() {
            '\0'
        } else {
            self.source[self.current]
        }
    }

    /// Reads the next character if it is `target`, and says whether it did.
    fn match_char(&mut self, target: char) -> (r: bool)
        requires
            old(self).wf(),
        ensures
            final(self).wf(),
            r == followed_by(old(self)@.source, old(self)@.current, target),
            final(self)@ == old(self)@.moved_to(
                if r {
                    old(self)@.current + 1
                } else {
                    old(self)@.current
                },
            ),
    {
        if self.is_at_end() {
            false
        } else {
            if self.peek() == target {
                self.advance();
                true
            } else {
                false
            }
        }
    }

    /// Begins a new lexeme at the cursor.
    fn align_pointer(&mut self)
        requires
            old(self).wf(),
        ensures
            final(self).wf(),
            final(self)@ == (LexerView { start: old(self)@.current, ..old(self)@ }),
    {
        self.start = self.current;
    }

    /// Reads on to the end of the run that begins at the cursor.
    fn skip_run(&mut self, run: Run)
        requires
            old(self).wf(),
        ensures
            final(self).wf(),
            final(self)@ == old(self)@.moved_to(run_end(old(self)@.source, old(self)@.current, run)),
    {
        loop
            invariant
                self.wf(),
                self@ == old(self)@.moved_to(self@.current),
                old(self)@.current <= self@.current,
                run_end(self@.source, self@.current, run) == run_end(
                    old(self)@.source,
                    old(self)@.current,
                    run,
                ),
            ensures
                self.wf(),
                self@ == old(self)@.moved_to(run_end(old(self)@.source, old(self)@.current, run)),
            decreases self@.source.len() - self@.current,
        {
            if self.is_at_end() {
                break ;
            }
            let c: char = self.peek();
            let taken: bool = match run {
                Run::Blank => blank(c),
                Run::Comment => c != '\n',
                Run::Name => Self::is_name_char(c, false),
            };
            if !taken {
                break ;
            }
            self.advance();
        }
    }

    /// Passes over the blanks at the cursor. A line feed is no blank.
    fn skip_whitespace(&mut self)
        requires
            old(self).wf(),
        ensures
            final(self).wf(),
            final(self)@ == old(self)@.moved_to(
                run_end(old(self)@.source, old(self)@.current, Run::Blank),
            ),
    {
        self.skip_run(Run::Blank);
    }

    /// Reads a comment to its end: up to the next line feed, which it leaves,
    /// or to the end of the source.
    fn scan_comment(&mut self)
        requires
            old(self).wf(),
        ensures
            final(self).wf(),
            final(self)@ == old(self)@.moved_to(
                run_end(old(self)@.source, old(self)@.current, Run::Comment),
            ),
    {
        self.skip_run(Run::Comment);
    }

    /// Reads a name whose first character has been read, and classifies it:
    /// a reserved word if it is spelled like one, else a name.
    fn scan_name(&mut self) -> (token: Token)
        requires
            old(self).wf(),
            old(self)@.current == old(self)@.start + 1,
        ensures
            final(self).wf(),
            final(self)@ == old(self)@.moved_to(name_scan(old(self)@.source, old(self)@.start).end),
            name_scan(old(self)@.source, old(self)@.start).found == Scanned::Token(token@),
    {
        self.skip_run(Run::Name);
        let word = self.extract_word();
        match ReservedWord::lookup(word.as_str()) {
            Some(reserved) => Token::Reserved(reserved),
            None => Token::Name(word),
        }
    }

    /// Reads the character after a backslash and decodes the escape
    /// sequence.
    fn parse_escape(&mut self) -> (r: Result<char, LexError>)
        requires
            old(self).wf(),
        ensures
            final(self).wf(),
            old(self)@.current >= old(self)@.source.len() ==> {
                &&& final(self)@ == old(self)@
                &&& r == Err::<char, LexError>(
                    LexError {
                        kind: LexErrorKind::UnterminatedString,
                        start: old(self)@.start as usize,
                        offset: old(self)@.current as usize,
                    },
                )
            },
            old(self)@.current < old(self)@.source.len() ==> {
                &&& final(self)@ == old(self)@.moved_to(old(self)@.current + 1)
                &&& match unescape(old(self)@.source[old(self)@.current]) {
                    Some(c) => r == Ok::<char, LexError>(c),
                    None => r == Err::<char, LexError>(
                        LexError {
                            kind: LexErrorKind::InvalidEscape,
                            start: old(self)@.start as usize,
                            offset: (old(self)@.current + 1) as usize,
                        },
                    ),
                }
            },
    {
        if self.is_at_end() {
            return Err(
                LexError {
                    kind: LexErrorKind::UnterminatedString,
                    start: self.start,
                    offset: self.current,
                },
            );
        }
        match escaped(self.advance()) {
            Some(c) => Ok(c),
            None => Err(
                LexError { kind: LexErrorKind::InvalidEscape, start: self.start, offset: self.current },
            ),
        }
    }

    /// Reads a string whose opening quote has been read, up to and with the
    /// closing quote, and decodes it.
    fn scan_string(&mut self) -> (r: Result<Token, LexError>)
        requires
            old(self).wf(),
            old(self)@.current == old(self)@.start + 1,
        ensures
            final(self).wf(),
            final(self)@ == old(self)@.moved_to(quoted_scan(old(self)@.source, old(self)@.start).end),
            quoted_scan(old(self)@.source, old(self)@.start).gives(r),
    {
        let str_tag: char = self.previous();
        let mut string = String::new();
        let ghost src = self@.source;
        let ghost body = self@.current;
        proof {
            lemma_string_scan_bounds(src, body, str_tag);
        }
        loop
            invariant
                self.wf(),
                self@ == old(self)@.moved_to(self@.current),
                src == old(self)@.source,
                body == old(self)@.start + 1,
                body <= self@.current,
                str_tag == src[body - 1],
                string_scan(src, body, str_tag) == string_scan(src, self@.current, str_tag).after(
                    string@,
                ),
            ensures
                self.wf(),
                self@ == old(self)@.moved_to(self@.current),
                self@.current < src.len(),
                src[self@.current] == str_tag,
                string_scan(src, body, str_tag) == (StringScan::Closed {
                    text: string@,
                    end: self@.current + 1,
                }),
            decreases src.len() - self@.current,
        {
            if self.is_at_end() {
                return Err(
                    LexError {
                        kind: LexErrorKind::UnterminatedString,
                        start: self.start,
                        offset: self.current,
                    },
                );
            }
            if self.peek() == str_tag {
                assert(string@ + Seq::<char>::empty() =~= string@);
                break ;
            }
            let ghost at = self@.current;
            let ghost rest_before = string_scan(src, at, str_tag);
            if self.match_char('\\') {
                match self.parse_escape() {
                    Ok(c) => {
                        proof {
                            lemma_after_after(string_scan(src, at + 2, str_tag), string@, seq![c]);
                            assert(string@ + seq![c] =~= string@.push(c));
                        }
                        string.push(c);
                    },
                    Err(e) => {
                        return Err(e);
                    },
                }
            } else {
                let c: char = self.advance();
                proof {
                    lemma_after_after(string_scan(src, at + 1, str_tag), string@, seq![c]);
                    assert(string@ + seq![c] =~= string@.push(c));
                }
                string.push(c);
            }
        }
        self.advance();
        Ok(Token::String(string))
    }

    /// The error of the given kind for the lexeme under way, with the cursor
    /// as the offset at which scanning stopped.
    fn error(&self, kind: LexErrorKind) -> (e: LexError)
        ensures
            e == (LexError { kind, start: self@.start as usize, offset: self@.current as usize }),
    {
        LexError { kind, start: self.start, offset: self.current }
    }

    /// Reads a number literal whose first character has been read, and
    /// evaluates it.
    fn scan_number(&mut self) -> (r: Result<Token, LexError>)
        requires
            old(self).wf(),
            old(self)@.current == old(self)@.start + 1,
        ensures
            final(self).wf(),
            final(self)@ == old(self)@.moved_to(number_scan(old(self)@.source, old(self)@.start).end),
            number_scan(old(self)@.source, old(self)@.start).gives(r),
    {
        let ghost src = self@.source;
        let ghost begin = self@.start;
        let mut state = NumberState {
            hex: false,
            float: false,
            science: false,
            signed_power: false,
            number_power: false,
        };
        if self.previous() == '0' && (self.match_char('x') || self.match_char('X')) {
            state.hex = true;
        }
        if self.previous() == '.' {
            state.float = true;
        }
        assert((state, self@.current) == number_start(src, begin));
        let ghost first = self@.current;
        let ghost state0 = state;
        proof {
            lemma_number_run_bounds(src, first, state0);
        }
        loop
            invariant
                self.wf(),
                self@ == old(self)@.moved_to(self@.current),
                src == old(self)@.source,
                begin == old(self)@.start,
                begin < first <= self@.current,
                (state0, first) == number_start(src, begin),
                state.hex ==> begin + 2 <= self@.current,
                number_run(src, self@.current, state) == number_run(src, first, state0),
            ensures
                self.wf(),
                self@ == old(self)@.moved_to(self@.current),
                begin < self@.current,
                state.hex ==> begin + 2 <= self@.current,
                number_run(src, first, state0) == (NumberRun {
                    end: self@.current,
                    state,
                    rejected: false,
                }),
            decreases src.len() - self@.current,
        {
            if self.is_at_end() {
                break ;
            }
            match state.next(self.peek()) {
                NumberStep::Take(next) => {
                    state = next;
                    self.advance();
                },
                NumberStep::Stop => {
                    break ;
                },
                NumberStep::Reject => {
                    return Err(self.error(LexErrorKind::MalformedNumber));
                },
            }
        }
        let text: &[char] = slice_subrange(self.source.as_slice(), self.start, self.current);
        let number: Option<Number> = if state.float {
            if float_text(text) {
                Some(Number::Float(self.extract_word()))
            } else {
                None
            }
        } else {
            let value: Option<u64> = if state.hex {
                let digits: &[char] = slice_subrange(text, 2, text.len());
                assert(digits@ =~= text@.skip(2));
                parse_hex(digits)
            } else {
                parse_decimal(text)
            };
            match value {
                Some(n) => Some(Number::Integer(n)),
                None => None,
            }
        };
        match number {
            Some(n) => Ok(Token::Number(n)),
            None => Err(self.error(LexErrorKind::MalformedNumber)),
        }
    }

    /// The symbol `paired` if `=` follows and is read, else the symbol
    /// `alone`.
    fn scan_paired(&mut self, paired: Symbol, alone: Symbol) -> (token: Token)
        requires
            old(self).wf(),
            old(self)@.current == old(self)@.start + 1,
        ensures
            final(self).wf(),
            final(self)@ == old(self)@.moved_to(
                paired_scan(old(self)@.source, old(self)@.start, paired, alone).end,
            ),
            paired_scan(old(self)@.source, old(self)@.start, paired, alone).found == Scanned::Token(
                token@,
            ),
    {
        if self.match_char('=') {
            Token::Symbol(paired)
        } else {
            Token::Symbol(alone)
        }
    }

    /// Scans once from the cursor: passes over blanks, then reads one lexeme
    /// and classifies it.
    ///
    /// Returns the token found, which is the end-of-input token where only
    /// blanks were left; `None` where the lexeme was a comment, which is read
    /// to its end and is no token; and an error where the lexeme is
    /// malformed. Afterwards `start` is the offset at which the lexeme
    /// begins, and `current` the offset after it, or, after an error, the
    /// offset at which scanning stopped.
    pub fn scan_token(&mut self) -> (r: Result<Option<Token>, LexError>)
        requires
            old(self).wf(),
        ensures
            final(self).wf(),
            final(self)@ == (LexerView {
                start: scan_at(old(self)@.source, old(self)@.current).start,
                current: scan_at(old(self)@.source, old(self)@.current).end,
                ..old(self)@
            }),
            scan_at(old(self)@.source, old(self)@.current).yields(r),
    {
        proof {
            lemma_scan_at_bounds(self@.source, self@.current);
        }
        self.skip_whitespace();
        self.align_pointer();
        if self.is_at_end() {
            return Ok(Some(Token::EOF));
        }
        let c: char = self.advance();
        if c == '\n' {
            return Ok(Some(Token::EOL));
        }
        match Symbol::from_char(c) {
            Some(symbol) => {
                return Ok(Some(Token::Symbol(symbol)));
            },
            None => {},
        }
        if c == '-' {
            if self.match_char('-') {
                self.scan_comment();
                Ok(None)
            } else {
                Ok(Some(Token::Symbol(Symbol::Minus)))
            }
        } else if c == '=' {
            Ok(Some(self.scan_paired(Symbol::Equal, Symbol::Assign)))
        } else if c == '>' {
            Ok(Some(self.scan_paired(Symbol::GreaterEqual, Symbol::Greater)))
        } else if c == '<' {
            Ok(Some(self.scan_paired(Symbol::LessEqual, Symbol::Less)))
        } else if c == '~' {
            if self.match_char('=') {
                Ok(Some(Token::Symbol(Symbol::NotEqual)))
            } else {
                Err(self.error(LexErrorKind::InvalidOperator))
            }
        } else if c == '.' {
            if !self.is_at_end() && self.peek().is_numeric() {
                Self::lift(self.scan_number())
            } else if self.match_char('.') {
                if self.match_char('.') {
                    Ok(Some(Token::Symbol(Symbol::Ellipsis)))
                } else {
                    Ok(Some(Token::Symbol(Symbol::Concat)))
                }
            } else {
                Ok(Some(Token::Symbol(Symbol::Dot)))
            }
        } else if c == '"' || c == '\'' {
            Self::lift(self.scan_string())
        } else if c.is_numeric() {
            Self::lift(self.scan_number())
        } else if Self::is_name_char(c, true) {
            Ok(Some(self.scan_name()))
        } else {
            Err(self.error(LexErrorKind::MalformedToken))
        }
    }

    /// The result of a scan that found a token or failed, as the result of a
    /// scan that may also find a comment.
    fn lift(r: Result<Token, LexError>) -> (lifted: Result<Option<Token>, LexError>)
        ensures
            forall|scan: Scan| scan.gives(r) ==> scan.yields(lifted),
    {
        match r {
            Ok(token) => Ok(Some(token)),
            Err(e) => Err(e),
        }
    }

    /// Adds a token and the text of the lexeme under way to those found.
    fn record(&mut self, token: Token)
        requires
            old(self).wf(),
        ensures
            final(self).wf(),
            final(self)@ == (LexerView {
                tokens: old(self)@.tokens.push(token@),
                lexemes: old(self)@.lexemes.push(old(self)@.word()),
                ..old(self)@
            }),
    {
        let word = self.extract_word();
        proof {
            assert(token_views(self.token_list@.push(token)) =~= token_views(self.token_list@).push(
                token@,
            ));
            assert(text_views(self.lexemes@.push(word)) =~= text_views(self.lexemes@).push(word@));
        }
        self.token_list.push(token);
        self.lexemes.push(word);
    }

    /// Scans from the cursor to the end of the source, and adds every token
    /// found to the list, the end-of-input token last. Comments add nothing.
    /// The first malformed lexeme stops the scan and is returned as the
    /// error; the tokens before it stay in the list.
    pub fn scan_tokens(&mut self) -> (r: Result<(), LexError>)
        requires
            old(self).wf(),
        ensures
            final(self).wf(),
            old(self)@.scans_to(final(self)@, r),
    {
        let ghost src = self@.source;
        let ghost total = lex_from(src, self@.current);
        proof {
            assert(self@.tokens + total.tokens =~= old(self)@.tokens + total.tokens);
        }
        loop
            invariant
                self.wf(),
                self@.source == src,
                src == old(self)@.source,
                total == lex_from(src, old(self)@.current),
                self@.tokens + lex_from(src, self@.current).tokens == old(self)@.tokens
                    + total.tokens,
                self@.lexemes + lex_from(src, self@.current).lexemes == old(self)@.lexemes
                    + total.lexemes,
                lex_from(src, self@.current).failure == total.failure,
            decreases src.len() - self@.current,
        {
            let ghost at = self@.current;
            let ghost found = self@.tokens;
            let ghost texts = self@.lexemes;
            let ghost scan = scan_at(src, at);
            let ghost rest = lex_from(src, at);
            proof {
                lemma_scan_at_bounds(src, at);
                lemma_eof_at_end(src, at);
            }
            match self.scan_token() {
                Ok(Some(token)) => {
                    let is_last: bool = match token {
                        Token::EOF => true,
                        _ => false,
                    };
                    let ghost view = token@;
                    self.record(token);
                    if is_last {
                        proof {
                            assert(self@.word() =~= Seq::<char>::empty());
                            assert(found.push(view) =~= found + rest.tokens);
                            assert(texts.push(Seq::<char>::empty()) =~= texts + rest.lexemes);
                        }
                        return Ok(());
                    }
                    proof {
                        let next = lex_from(src, scan.end);
                        assert(found.push(view) + next.tokens =~= found + rest.tokens);
                        assert(texts.push(src.subrange(scan.start, scan.end)) + next.lexemes =~= texts
                            + rest.lexemes);
                    }
                },
                Ok(None) => {},
                Err(e) => {
                    proof {
                        assert(found + rest.tokens =~= found);
                        assert(texts + rest.lexemes =~= texts);
                    }
                    return Err(e);
                },
            }
        }
    }

    /// The lines that report the tokens found so far, one for each token but
    /// the end-of-input token, in the order of the source.
    pub fn report(&self) -> (lines: Vec<String>)
        requires
            self.wf(),
        ensures
            text_views(lines@) == report_lines(self@.tokens, self@.lexemes),
    {
        let n: usize = self.token_list.len();
        let mut lines: Vec<String> = Vec::new();
        let mut i: usize = 0;
        assert(self@.tokens.take(0).len() == 0);
        assert(text_views(lines@) =~= Seq::<Seq<char>>::empty());
        while i < n
            invariant
                self.wf(),
                n == self.token_list@.len(),
                i <= n,
                text_views(lines@) == report_lines(
                    self@.tokens.take(i as int),
                    self@.lexemes.take(i as int),
                ),
            decreases n - i,
        {
            let ghost tokens = self@.tokens.take(i + 1);
            let ghost lexemes = self@.lexemes.take(i + 1);
            proof {
                assert(tokens.drop_last() =~= self@.tokens.take(i as int));
                assert(lexemes.drop_last() =~= self@.lexemes.take(i as int));
                assert(tokens.last() == self.token_list@[i as int]@);
                assert(lexemes.last() == self.lexemes@[i as int]@);
            }
            match self.token_list[i].report_line(self.lexemes[i].as_str()) {
                Some(line) => {
                    assert(text_views(lines@.push(line)) =~= text_views(lines@).push(line@));
                    lines.push(line);
                },
                None => {},
            }
            i += 1;
        }
        proof {
            assert(self@.tokens.take(n as int) =~= self@.tokens);
            assert(self@.lexemes.take(n as int) =~= self@.lexemes);
        }
        lines
    }
}

} // verus!
