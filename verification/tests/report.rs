use mini_lua::lexer::Lexer;
use mini_lua::token::{Number, ReservedWord, Symbol, Token};

#[test]
fn report_has_one_line_per_token() {
    let mut lexer = Lexer::new("local s = 'a\\nb' .. 0x1F -- done\nreturn s, 1.5e3\n".to_string());
    assert_eq!(lexer.scan_tokens(), Ok(()));
    assert_eq!(
        lexer.report(),
        vec![
            "[RESERVED] local",
            "[NAME] s",
            "[SYMBOL] =",
            "[STRING] 'a\\nb'",
            "[SYMBOL] ..",
            "[NUMBER] 0x1F",
            "[EOL]",
            "[RESERVED] return",
            "[NAME] s",
            "[SYMBOL] ,",
            "[NUMBER] 1.5e3",
            "[EOL]",
        ]
    );
}

#[test]
fn report_of_nothing_is_empty() {
    let mut lexer = Lexer::new(String::new());
    assert!(lexer.report().is_empty());
    assert_eq!(lexer.scan_tokens(), Ok(()));
    assert!(lexer.report().is_empty());
}

#[test]
fn report_after_a_failure_has_the_tokens_before_it() {
    let mut lexer = Lexer::new("x = 1.2.3".to_string());
    assert!(lexer.scan_tokens().is_err());
    assert_eq!(lexer.report(), vec!["[NAME] x", "[SYMBOL] ="]);
}

#[test]
fn tags() {
    assert_eq!(Token::Reserved(ReservedWord::If).tag(), "[RESERVED]");
    assert_eq!(Token::Number(Number::Integer(1)).tag(), "[NUMBER]");
    assert_eq!(Token::String(String::new()).tag(), "[STRING]");
    assert_eq!(Token::Symbol(Symbol::Add).tag(), "[SYMBOL]");
    assert_eq!(Token::Name("x".to_string()).tag(), "[NAME]");
    assert_eq!(Token::EOL.tag(), "[EOL]");
    assert_eq!(Token::EOF.tag(), "");
}

#[test]
fn report_lines() {
    assert_eq!(
        Token::Reserved(ReservedWord::ElseIf).report_line("elseif"),
        Some("[RESERVED] elseif".to_string())
    );
    assert_eq!(
        Token::Number(Number::Integer(31)).report_line("0x1F"),
        Some("[NUMBER] 0x1F".to_string())
    );
    assert_eq!(
        Token::Number(Number::Float("1e5".to_string())).report_line("1e5"),
        Some("[NUMBER] 1e5".to_string())
    );
    assert_eq!(
        Token::String("it's".to_string()).report_line("'it\\'s'"),
        Some("[STRING] 'it\\'s'".to_string())
    );
    assert_eq!(
        Token::Symbol(Symbol::Ellipsis).report_line("..."),
        Some("[SYMBOL] ...".to_string())
    );
    assert_eq!(
        Token::Name("x1".to_string()).report_line("x1"),
        Some("[NAME] x1".to_string())
    );
    assert_eq!(Token::EOL.report_line("\n"), Some("[EOL]".to_string()));
    assert_eq!(Token::EOF.report_line(""), None);
}
