use mini_lua::error::{LexError, LexErrorKind};
use mini_lua::lexer::Lexer;
use mini_lua::token::{Number, ReservedWord, Symbol, Token};

fn scan(source: &str) -> Vec<Token> {
    let mut lexer = Lexer::new(source.to_string());
    lexer.scan_tokens().expect("the source is well formed");
    lexer.tokens().clone()
}

fn failure(source: &str) -> LexError {
    let mut lexer = Lexer::new(source.to_string());
    lexer.scan_tokens().expect_err("the source is malformed")
}

fn float_of(token: &Token) -> f64 {
    match token {
        Token::Number(Number::Integer(n)) => *n as f64,
        Token::Number(Number::Float(text)) => text.parse::<f64>().expect("a decimal literal"),
        other => panic!("not a number: {:?}", other),
    }
}

#[test]
fn scans_a_conditional_statement() {
    assert_eq!(
        scan("if x == 1 then return end"),
        vec![
            Token::Reserved(ReservedWord::If),
            Token::Name("x".to_string()),
            Token::Symbol(Symbol::Equal),
            Token::Number(Number::Integer(1)),
            Token::Reserved(ReservedWord::Then),
            Token::Reserved(ReservedWord::Return),
            Token::Reserved(ReservedWord::End),
            Token::EOF,
        ]
    );
}

#[test]
fn conditional_statement_number_is_one() {
    let tokens = scan("if x == 1 then return end");
    assert_eq!(float_of(&tokens[3]), 1.0);
}

#[test]
fn blank_source_gives_one_line_break_per_line_feed() {
    assert_eq!(
        scan(" \t\n\r\n  \n"),
        vec![Token::EOL, Token::EOL, Token::EOL, Token::EOF]
    );
}

#[test]
fn blanks_alone_give_only_the_end_of_input() {
    assert_eq!(scan("   \t \r "), vec![Token::EOF]);
}

#[test]
fn empty_source_gives_only_the_end_of_input() {
    assert_eq!(scan(""), vec![Token::EOF]);
}

#[test]
fn unicode_whitespace_separates_lexemes() {
    assert_eq!(
        scan("a\u{a0}b\u{2003}c"),
        vec![
            Token::Name("a".to_string()),
            Token::Name("b".to_string()),
            Token::Name("c".to_string()),
            Token::EOF,
        ]
    );
}

#[test]
fn scanning_twice_gives_the_same_tokens() {
    let source = "local s = 'a\\nb' -- note\nreturn s .. 0x1F + 3.14e-2";
    assert_eq!(scan(source), scan(source));
}

#[test]
fn scanning_twice_gives_the_same_failure() {
    assert_eq!(failure("x = 1.2.3"), failure("x = 1.2.3"));
}

#[test]
fn double_quoted_string_decodes_its_escapes() {
    let tokens = scan("\"a\\nb\"");
    assert_eq!(tokens, vec![Token::String("a\nb".to_string()), Token::EOF]);
    match &tokens[0] {
        Token::String(text) => assert_eq!(text.chars().count(), 3),
        other => panic!("not a string: {:?}", other),
    }
}

#[test]
fn single_quoted_string_decodes_its_escapes() {
    assert_eq!(
        scan("'it\\'s'"),
        vec![Token::String("it's".to_string()), Token::EOF]
    );
}

#[test]
fn float_with_signed_exponent() {
    let tokens = scan("3.14e-2");
    assert_eq!(
        tokens,
        vec![Token::Number(Number::Float("3.14e-2".to_string())), Token::EOF]
    );
    assert_eq!(float_of(&tokens[0]), 0.0314);
}

#[test]
fn hexadecimal_integer() {
    let tokens = scan("0x1F");
    assert_eq!(tokens, vec![Token::Number(Number::Integer(31)), Token::EOF]);
    assert_eq!(float_of(&tokens[0]), 31.0);
}

#[test]
fn decimal_integer() {
    let tokens = scan("10");
    assert_eq!(tokens, vec![Token::Number(Number::Integer(10)), Token::EOF]);
    assert_eq!(float_of(&tokens[0]), 10.0);
}

#[test]
fn exponent_makes_a_float() {
    let tokens = scan("1e10");
    assert_eq!(
        tokens,
        vec![Token::Number(Number::Float("1e10".to_string())), Token::EOF]
    );
    assert_eq!(float_of(&tokens[0]), 1e10);
}

#[test]
fn tilde_without_equals_is_an_invalid_operator() {
    assert_eq!(
        failure("~!"),
        LexError { kind: LexErrorKind::InvalidOperator, start: 0, offset: 1 }
    );
}

#[test]
fn second_point_is_a_malformed_number() {
    assert_eq!(
        failure("1.2.3"),
        LexError { kind: LexErrorKind::MalformedNumber, start: 0, offset: 3 }
    );
}

#[test]
fn missing_closing_quote_is_an_unterminated_string() {
    assert_eq!(
        failure("\"unterminated"),
        LexError { kind: LexErrorKind::UnterminatedString, start: 0, offset: 13 }
    );
}

#[test]
fn unknown_escape_is_an_invalid_escape() {
    assert_eq!(
        failure("\"a\\qb\""),
        LexError { kind: LexErrorKind::InvalidEscape, start: 0, offset: 4 }
    );
}

#[test]
fn character_that_begins_nothing_is_a_malformed_token() {
    assert_eq!(
        failure("x = @"),
        LexError { kind: LexErrorKind::MalformedToken, start: 4, offset: 5 }
    );
}

#[test]
fn name_with_reserved_prefix_is_one_name() {
    assert_eq!(
        scan("forward"),
        vec![Token::Name("forward".to_string()), Token::EOF]
    );
}

#[test]
fn reserved_word_before_a_symbol_is_reserved() {
    assert_eq!(
        scan("for(ward"),
        vec![
            Token::Reserved(ReservedWord::For),
            Token::Symbol(Symbol::LeftParen),
            Token::Name("ward".to_string()),
            Token::EOF,
        ]
    );
}

#[test]
fn comment_gives_no_token_but_its_line_feed_does() {
    assert_eq!(scan("-- anything here\n"), vec![Token::EOL, Token::EOF]);
}

#[test]
fn comment_at_the_end_of_the_source() {
    assert_eq!(
        scan("x -- if then 'open"),
        vec![Token::Name("x".to_string()), Token::EOF]
    );
}

#[test]
fn comment_after_code_leaves_the_code() {
    assert_eq!(
        scan("a - b --- c\nd"),
        vec![
            Token::Name("a".to_string()),
            Token::Symbol(Symbol::Minus),
            Token::Name("b".to_string()),
            Token::EOL,
            Token::Name("d".to_string()),
            Token::EOF,
        ]
    );
}
