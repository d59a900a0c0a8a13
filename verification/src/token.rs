//! Tokens and the fixed tables behind them: the reserved words and the
//! operator symbols.

use vstd::prelude::*;

verus! {

/// The reserved words of the language. A name spelled like one of them is a
/// keyword; every other name is an identifier.
#[derive(Clone, Copy, Debug, PartialEq, Eq)]
pub enum ReservedWord {
    And,
    Break,
    Do,
    Else,
    ElseIf,
    End,
    False,
    For,
    Function,
    If,
    In,
    Local,
    Nil,
    Not,
    Or,
    Repeat,
    Return,
    Then,
    True,
    Until,
    While,
}

/// The operators and punctuation marks.
#[derive(Clone, Copy, Debug, PartialEq, Eq)]
pub enum Symbol {
    Add,
    Minus,
    Multiply,
    Divide,
    Mod,
    Power,
    Length,
    Equal,
    GreaterEqual,
    LessEqual,
    Less,
    Greater,
    NotEqual,
    LeftParen,
    RightParen,
    LeftBrace,
    RightBrace,
    LeftBracket,
    RightBracket,
    Semicolon,
    Colon,
    Comma,
    Dot,
    Concat,
    Ellipsis,
    Assign,
}

/// The value of a number literal.
///
/// A literal without fraction and exponent, decimal or hexadecimal, is held by
/// its value. One with a fraction or an exponent is held by its text, which is
/// a decimal literal that [`is_float_text`](crate::number::is_float_text)
/// accepts.
#[derive(Clone, Debug, PartialEq, Eq)]
pub enum Number {
    Integer(u64),
    Float(String),
}

/// A classified lexeme.
#[derive(Clone, Debug, PartialEq, Eq)]
pub enum Token {
    /// A reserved word.
    Reserved(ReservedWord),
    /// A number literal.
    Number(Number),
    /// A string literal, by its decoded text: without the quotes, each escape
    /// sequence replaced by the character it stands for.
    String(String),
    /// An operator or punctuation mark.
    Symbol(Symbol),
    /// A name that is not reserved.
    Name(String),
    /// A line feed.
    EOL,
    /// The end of the input.
    EOF,
}

/// What a [`Number`] holds, as mathematical values.
pub enum NumberView {
    Integer(u64),
    Float(Seq<char>),
}

/// What a [`Token`] holds, as mathematical values.
pub enum TokenView {
    Reserved(ReservedWord),
    Number(NumberView),
    String(Seq<char>),
    Symbol(Symbol),
    Name(Seq<char>),
    EOL,
    EOF,
}

impl View for Number {
    type V = NumberView;

    open spec fn view(&self) -> NumberView {
        match *self {
            Number::Integer(n) => NumberView::Integer(n),
            Number::Float(text) => NumberView::Float(text@),
        }
    }
}

impl View for Token {
    type V = TokenView;

    open spec fn view(&self) -> TokenView {
        match *self {
            Token::Reserved(word) => TokenView::Reserved(word),
            Token::Number(number) => TokenView::Number(number@),
            Token::String(text) => TokenView::String(text@),
            Token::Symbol(symbol) => TokenView::Symbol(symbol),
            Token::Name(text) => TokenView::Name(text@),
            Token::EOL => TokenView::EOL,
            Token::EOF => TokenView::EOF,
        }
    }
}

/// The views of a sequence of tokens, in the same order.
pub open spec fn token_views(tokens: Seq<Token>) -> Seq<TokenView> {
    tokens.map_values(|t: Token| t@)
}

/// The views of a sequence of strings, in the same order.
pub open spec fn text_views(texts: Seq<String>) -> Seq<Seq<char>> {
    texts.map_values(|t: String| t@)
}

/// Whether two string slices hold the same characters.
pub fn same_text(a: &str, b: &str) -> (r: bool)
    ensures
        r == (a@ == b@),
{
    let n: usize = a.unicode_len();
    if n != b.unicode_len() {
        return false;
    }
    let mut i: usize = 0;
    while i < n
        invariant
            n == a@.len(),
            n == b@.len(),
            i <= n,
            forall|j: int| 0 <= j < i ==> a@[j] == b@[j],
        decreases n - i,
    {
        if a.get_char(i) != b.get_char(i) {
            return false;
        }
        i += 1;
    }
    assert(a@ =~= b@);
    true
}

impl ReservedWord {
    /// How the reserved word is written.
    pub open spec fn spelling(self) -> Seq<char> {
        match self {
            ReservedWord::And => "and"@,
            ReservedWord::Break => "break"@,
            ReservedWord::Do => "do"@,
            ReservedWord::Else => "else"@,
            ReservedWord::ElseIf => "elseif"@,
            ReservedWord::End => "end"@,
            ReservedWord::False => "false"@,
            ReservedWord::For => "for"@,
            ReservedWord::Function => "function"@,
            ReservedWord::If => "if"@,
            ReservedWord::In => "in"@,
            ReservedWord::Local => "local"@,
            ReservedWord::Nil => "nil"@,
            ReservedWord::Not => "not"@,
            ReservedWord::Or => "or"@,
            ReservedWord::Repeat => "repeat"@,
            ReservedWord::Return => "return"@,
            ReservedWord::Then => "then"@,
            ReservedWord::True => "true"@,
            ReservedWord::Until => "until"@,
            ReservedWord::While => "while"@,
        }
    }

    /// How the reserved word is written.
    pub fn text(self) -> (r: &'static str)
        ensures
            r@ == self.spelling(),
    {
        match self {
            ReservedWord::And => "and",
            ReservedWord::Break => "break",
            ReservedWord::Do => "do",
            ReservedWord::Else => "else",
            ReservedWord::ElseIf => "elseif",
            ReservedWord::End => "end",
            ReservedWord::False => "false",
            ReservedWord::For => "for",
            ReservedWord::Function => "function",
            ReservedWord::If => "if",
            ReservedWord::In => "in",
            ReservedWord::Local => "local",
            ReservedWord::Nil => "nil",
            ReservedWord::Not => "not",
            ReservedWord::Or => "or",
            ReservedWord::Repeat => "repeat",
            ReservedWord::Return => "return",
            ReservedWord::Then => "then",
            ReservedWord::True => "true",
            ReservedWord::Until => "until",
            ReservedWord::While => "while",
        }
    }

    /// The reserved word that is written as `word`, if there is one.
    pub fn lookup(word: &str) -> (r: Option<ReservedWord>)
        ensures
            r == reserved_word(word@),
    {
        if same_text(word, "and") {
            Some(ReservedWord::And)
        } else if same_text(word, "break") {
            Some(ReservedWord::Break)
        } else if same_text(word, "do") {
            Some(ReservedWord::Do)
        } else if same_text(word, "else") {
            Some(ReservedWord::Else)
        } else if same_text(word, "elseif") {
            Some(ReservedWord::ElseIf)
        } else if same_text(word, "end") {
            Some(ReservedWord::End)
        } else if same_text(word, "false") {
            Some(ReservedWord::False)
        } else if same_text(word, "for") {
            Some(ReservedWord::For)
        } else if same_text(word, "function") {
            Some(ReservedWord::Function)
        } else if same_text(word, "if") {
            Some(ReservedWord::If)
        } else if same_text(word, "in") {
            Some(ReservedWord::In)
        } else if same_text(word, "local") {
            Some(ReservedWord::Local)
        } else if same_text(word, "nil") {
            Some(ReservedWord::Nil)
        } else if same_text(word, "not") {
            Some(ReservedWord::Not)
        } else if same_text(word, "or") {
            Some(ReservedWord::Or)
        } else if same_text(word, "repeat") {
            Some(ReservedWord::Repeat)
        } else if same_text(word, "return") {
            Some(ReservedWord::Return)
        } else if same_text(word, "then") {
            Some(ReservedWord::Then)
        } else if same_text(word, "true") {
            Some(ReservedWord::True)
        } else if same_text(word, "until") {
            Some(ReservedWord::Until)
        } else if same_text(word, "while") {
            Some(ReservedWord::While)
        } else {
            None
        }
    }
}

/// The reserved word that is written as `word`, if there is one. The match is
/// exact and case-sensitive.
pub open spec fn reserved_word(word: Seq<char>) -> Option<ReservedWord> {
    if word == ReservedWord::And.spelling() {
        Some(ReservedWord::And)
    } else if word == ReservedWord::Break.spelling() {
        Some(ReservedWord::Break)
    } else if word == ReservedWord::Do.spelling() {
        Some(ReservedWord::Do)
    } else if word == ReservedWord::Else.spelling() {
        Some(ReservedWord::Else)
    } else if word == ReservedWord::ElseIf.spelling() {
        Some(ReservedWord::ElseIf)
    } else if word == ReservedWord::End.spelling() {
        Some(ReservedWord::End)
    } else if word == ReservedWord::False.spelling() {
        Some(ReservedWord::False)
    } else if word == ReservedWord::For.spelling() {
        Some(ReservedWord::For)
    } else if word == ReservedWord::Function.spelling() {
        Some(ReservedWord::Function)
    } else if word == ReservedWord::If.spelling() {
        Some(ReservedWord::If)
    } else if word == ReservedWord::In.spelling() {
        Some(ReservedWord::In)
    } else if word == ReservedWord::Local.spelling() {
        Some(ReservedWord::Local)
    } else if word == ReservedWord::Nil.spelling() {
        Some(ReservedWord::Nil)
    } else if word == ReservedWord::Not.spelling() {
        Some(ReservedWord::Not)
    } else if word == ReservedWord::Or.spelling() {
        Some(ReservedWord::Or)
    } else if word == ReservedWord::Repeat.spelling() {
        Some(ReservedWord::Repeat)
    } else if word == ReservedWord::Return.spelling() {
        Some(ReservedWord::Return)
    } else if word == ReservedWord::Then.spelling() {
        Some(ReservedWord::Then)
    } else if word == ReservedWord::True.spelling() {
        Some(ReservedWord::True)
    } else if word == ReservedWord::Until.spelling() {
        Some(ReservedWord::Until)
    } else if word == ReservedWord::While.spelling() {
        Some(ReservedWord::While)
    } else {
        None
    }
}

/// Makes the characters of every reserved word known to the verifier.
pub proof fn reveal_spellings()
    ensures
        "and"@ == seq!['a', 'n', 'd'],
        "break"@ == seq!['b', 'r', 'e', 'a', 'k'],
        "do"@ == seq!['d', 'o'],
        "else"@ == seq!['e', 'l', 's', 'e'],
        "elseif"@ == seq!['e', 'l', 's', 'e', 'i', 'f'],
        "end"@ == seq!['e', 'n', 'd'],
        "false"@ == seq!['f', 'a', 'l', 's', 'e'],
        "for"@ == seq!['f', 'o', 'r'],
        "function"@ == seq!['f', 'u', 'n', 'c', 't', 'i', 'o', 'n'],
        "if"@ == seq!['i', 'f'],
        "in"@ == seq!['i', 'n'],
        "local"@ == seq!['l', 'o', 'c', 'a', 'l'],
        "nil"@ == seq!['n', 'i', 'l'],
        "not"@ == seq!['n', 'o', 't'],
        "or"@ == seq!['o', 'r'],
        "repeat"@ == seq!['r', 'e', 'p', 'e', 'a', 't'],
        "return"@ == seq!['r', 'e', 't', 'u', 'r', 'n'],
        "then"@ == seq!['t', 'h', 'e', 'n'],
        "true"@ == seq!['t', 'r', 'u', 'e'],
        "until"@ == seq!['u', 'n', 't', 'i', 'l'],
        "while"@ == seq!['w', 'h', 'i', 'l', 'e'],
{
    reveal_strlit("and");
    reveal_strlit("break");
    reveal_strlit("do");
    reveal_strlit("else");
    reveal_strlit("elseif");
    reveal_strlit("end");
    reveal_strlit("false");
    reveal_strlit("for");
    reveal_strlit("function");
    reveal_strlit("if");
    reveal_strlit("in");
    reveal_strlit("local");
    reveal_strlit("nil");
    reveal_strlit("not");
    reveal_strlit("or");
    reveal_strlit("repeat");
    reveal_strlit("return");
    reveal_strlit("then");
    reveal_strlit("true");
    reveal_strlit("until");
    reveal_strlit("while");
    assert("and"@ =~= seq!['a', 'n', 'd']);
    assert("break"@ =~= seq!['b', 'r', 'e', 'a', 'k']);
    assert("do"@ =~= seq!['d', 'o']);
    assert("else"@ =~= seq!['e', 'l', 's', 'e']);
    assert("elseif"@ =~= seq!['e', 'l', 's', 'e', 'i', 'f']);
    assert("end"@ =~= seq!['e', 'n', 'd']);
    assert("false"@ =~= seq!['f', 'a', 'l', 's', 'e']);
    assert("for"@ =~= seq!['f', 'o', 'r']);
    assert("function"@ =~= seq!['f', 'u', 'n', 'c', 't', 'i', 'o', 'n']);
    assert("if"@ =~= seq!['i', 'f']);
    assert("in"@ =~= seq!['i', 'n']);
    assert("local"@ =~= seq!['l', 'o', 'c', 'a', 'l']);
    assert("nil"@ =~= seq!['n', 'i', 'l']);
    assert("not"@ =~= seq!['n', 'o', 't']);
    assert("or"@ =~= seq!['o', 'r']);
    assert("repeat"@ =~= seq!['r', 'e', 'p', 'e', 'a', 't']);
    assert("return"@ =~= seq!['r', 'e', 't', 'u', 'r', 'n']);
    assert("then"@ =~= seq!['t', 'h', 'e', 'n']);
    assert("true"@ =~= seq!['t', 'r', 'u', 'e']);
    assert("until"@ =~= seq!['u', 'n', 't', 'i', 'l']);
    assert("while"@ =~= seq!['w', 'h', 'i', 'l', 'e']);
}

/// A word is reserved exactly when it is the spelling of a reserved word, and
/// then it denotes that one: no two reserved words are written alike.
pub proof fn lemma_reserved_word_spelling(word: Seq<char>, k: ReservedWord)
    ensures
        reserved_word(word) == Some(k) <==> word == k.spelling(),
{
    lemma_spellings_differ();
    if reserved_word(word) is Some {
        assert(word == reserved_word(word)->0.spelling());
    }
}

/// The spellings of the reserved words are pairwise different.
pub proof fn lemma_spellings_differ()
    ensures
        forall|a: ReservedWord, b: ReservedWord| #[trigger] a.spelling() == #[trigger] b.spelling() ==> a == b,
{
    reveal_spellings();
    assert forall|a: ReservedWord, b: ReservedWord| #[trigger] a.spelling() == #[trigger] b.spelling() implies a == b by {
        let s = a.spelling();
        let t = b.spelling();
        if a != b {
            assert(s.len() != t.len() || s[0] != t[0] || s[1] != t[1] || s[2] != t[2] || s[4] != t[4]);
        }
    }
}

impl Symbol {
    /// The symbol that the character alone always denotes, whatever follows
    /// it. The characters that may begin another lexeme (`-`, `=`, `<`, `>`,
    /// `~` and `.`) are not among them.
    pub open spec fn single(c: char) -> Option<Symbol> {
        if c == '+' {
            Some(Symbol::Add)
        } else if c == '*' {
            Some(Symbol::Multiply)
        } else if c == '/' {
            Some(Symbol::Divide)
        } else if c == '%' {
            Some(Symbol::Mod)
        } else if c == '^' {
            Some(Symbol::Power)
        } else if c == '#' {
            Some(Symbol::Length)
        } else if c == '(' {
            Some(Symbol::LeftParen)
        } else if c == ')' {
            Some(Symbol::RightParen)
        } else if c == '{' {
            Some(Symbol::LeftBrace)
        } else if c == '}' {
            Some(Symbol::RightBrace)
        } else if c == '[' {
            Some(Symbol::LeftBracket)
        } else if c == ']' {
            Some(Symbol::RightBracket)
        } else if c == ';' {
            Some(Symbol::Semicolon)
        } else if c == ':' {
            Some(Symbol::Colon)
        } else if c == ',' {
            Some(Symbol::Comma)
        } else {
            None
        }
    }

    /// The symbol that the character alone always denotes, if any.
    pub fn from_char(c: char) -> (r: Option<Symbol>)
        ensures
            r == Symbol::single(c),
    {
        match c {
            '+' => Some(Symbol::Add),
            '*' => Some(Symbol::Multiply),
            '/' => Some(Symbol::Divide),
            '%' => Some(Symbol::Mod),
            '^' => Some(Symbol::Power),
            '#' => Some(Symbol::Length),
            '(' => Some(Symbol::LeftParen),
            ')' => Some(Symbol::RightParen),
            '{' => Some(Symbol::LeftBrace),
            '}' => Some(Symbol::RightBrace),
            '[' => Some(Symbol::LeftBracket),
            ']' => Some(Symbol::RightBracket),
            ';' => Some(Symbol::Semicolon),
            ':' => Some(Symbol::Colon),
            ',' => Some(Symbol::Comma),
            _ => None,
        }
    }
}

} // verus!
