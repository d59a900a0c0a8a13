use mini_lua::error::{LexError, LexErrorKind};
use mini_lua::lexer::Lexer;
use mini_lua::token::{Number, ReservedWord, Symbol, Token};

#[test]
fn scan_token_reads_one_lexeme_at_a_time() {
    let mut lexer = Lexer::new("  local n = 42 -- the answer\n".to_string());
    assert_eq!(lexer.scan_token(), Ok(Some(Token::Reserved(ReservedWord::Local))));
    assert_eq!((lexer.start(), lexer.current()), (2, 7));
    assert_eq!(lexer.extract_word(), "local");
    assert_eq!(lexer.scan_token(), Ok(Some(Token::Name("n".to_string()))));
    assert_eq!((lexer.start(), lexer.current()), (8, 9));
    assert_eq!(lexer.scan_token(), Ok(Some(Token::Symbol(Symbol::Assign))));
    assert_eq!(lexer.scan_token(), Ok(Some(Token::Number(Number::Integer(42)))));
    assert_eq!(lexer.extract_word(), "42");
    assert_eq!(lexer.scan_token(), Ok(None));
    assert_eq!(lexer.extract_word(), "-- the answer");
    assert!(!lexer.is_at_end());
    assert_eq!(lexer.scan_token(), Ok(Some(Token::EOL)));
    assert!(lexer.is_at_end());
    assert_eq!(lexer.scan_token(), Ok(Some(Token::EOF)));
    assert_eq!(lexer.scan_token(), Ok(Some(Token::EOF)));
    assert_eq!(lexer.extract_word(), "");
}

#[test]
fn scan_token_adds_nothing_to_the_list() {
    let mut lexer = Lexer::new("a b".to_string());
    assert_eq!(lexer.scan_token(), Ok(Some(Token::Name("a".to_string()))));
    assert!(lexer.tokens().is_empty());
    assert!(lexer.lexemes().is_empty());
}

#[test]
fn new_lexer_is_at_the_beginning() {
    let lexer = Lexer::new("abc".to_string());
    assert_eq!((lexer.start(), lexer.current()), (0, 0));
    assert!(!lexer.is_at_end());
    assert!(lexer.tokens().is_empty());
    assert_eq!(lexer.extract_word(), "");
}

#[test]
fn new_lexer_over_nothing_is_at_the_end() {
    assert!(Lexer::new(String::new()).is_at_end());
}

#[test]
fn offsets_count_characters_not_bytes() {
    let mut lexer = Lexer::new("é = 'ü' @".to_string());
    assert_eq!(
        lexer.scan_tokens(),
        Err(LexError { kind: LexErrorKind::MalformedToken, start: 8, offset: 9 })
    );
    assert_eq!(lexer.extract_word(), "@");
}

#[test]
fn scan_tokens_goes_on_from_the_cursor() {
    let mut lexer = Lexer::new("a b c".to_string());
    assert_eq!(lexer.scan_token(), Ok(Some(Token::Name("a".to_string()))));
    assert_eq!(lexer.scan_tokens(), Ok(()));
    assert_eq!(
        lexer.tokens().clone(),
        vec![Token::Name("b".to_string()), Token::Name("c".to_string()), Token::EOF]
    );
    assert!(lexer.is_at_end());
    assert_eq!((lexer.start(), lexer.current()), (5, 5));
}

#[test]
fn scan_tokens_keeps_the_tokens_before_a_failure() {
    let mut lexer = Lexer::new("x = 'a' ~ y".to_string());
    assert_eq!(
        lexer.scan_tokens(),
        Err(LexError { kind: LexErrorKind::InvalidOperator, start: 8, offset: 9 })
    );
    assert_eq!(
        lexer.tokens().clone(),
        vec![
            Token::Name("x".to_string()),
            Token::Symbol(Symbol::Assign),
            Token::String("a".to_string()),
        ]
    );
    assert_eq!(
        lexer.lexemes().clone(),
        vec!["x".to_string(), "=".to_string(), "'a'".to_string()]
    );
    assert_eq!((lexer.start(), lexer.current()), (8, 9));
    assert_eq!(lexer.extract_word(), "~");
}

#[test]
fn lexemes_are_the_source_text_of_the_tokens() {
    let mut lexer = Lexer::new("s = \"a\\\"b\" .. 0x1f\n".to_string());
    assert_eq!(lexer.scan_tokens(), Ok(()));
    assert_eq!(
        lexer.lexemes().clone(),
        vec![
            "s".to_string(),
            "=".to_string(),
            "\"a\\\"b\"".to_string(),
            "..".to_string(),
            "0x1f".to_string(),
            "\n".to_string(),
            String::new(),
        ]
    );
    assert_eq!(lexer.tokens().len(), lexer.lexemes().len());
}

#[test]
fn name_characters() {
    assert!(Lexer::is_name_char('a', true));
    assert!(Lexer::is_name_char('_', true));
    assert!(Lexer::is_name_char('é', true));
    assert!(!Lexer::is_name_char('7', true));
    assert!(!Lexer::is_name_char('-', true));
    assert!(Lexer::is_name_char('a', false));
    assert!(Lexer::is_name_char('_', false));
    assert!(Lexer::is_name_char('7', false));
    assert!(Lexer::is_name_char('٣', false));
    assert!(!Lexer::is_name_char(' ', false));
    assert!(!Lexer::is_name_char('.', false));
}
