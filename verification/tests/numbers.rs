use mini_lua::error::{LexError, LexErrorKind};
use mini_lua::lexer::Lexer;
use mini_lua::number::{float_text, parse_decimal, parse_hex, NumberState, NumberStep};
use mini_lua::token::{Number, Symbol, Token};

fn number_tokens(source: &str) -> Vec<Token> {
    let mut lexer = Lexer::new(source.to_string());
    lexer.scan_tokens().expect("the source is well formed");
    lexer.tokens().clone()
}

fn number_failure(source: &str) -> LexError {
    let mut lexer = Lexer::new(source.to_string());
    lexer.scan_tokens().expect_err("the source is malformed")
}

fn malformed(start: usize, offset: usize) -> LexError {
    LexError { kind: LexErrorKind::MalformedNumber, start, offset }
}

fn chars_of(text: &str) -> Vec<char> {
    text.chars().collect()
}

fn float(text: &str) -> Token {
    Token::Number(Number::Float(text.to_string()))
}

fn integer(n: u64) -> Token {
    Token::Number(Number::Integer(n))
}

const PLAIN: NumberState = NumberState {
    hex: false,
    float: false,
    science: false,
    signed_power: false,
    number_power: false,
};

#[test]
fn zero_is_an_integer() {
    assert_eq!(number_tokens("0"), vec![integer(0), Token::EOF]);
}

#[test]
fn leading_zeros_are_decimal() {
    assert_eq!(number_tokens("007"), vec![integer(7), Token::EOF]);
}

#[test]
fn largest_decimal_integer() {
    assert_eq!(
        number_tokens("18446744073709551615"),
        vec![integer(u64::MAX), Token::EOF]
    );
}

#[test]
fn decimal_integer_beyond_64_bits_is_malformed() {
    assert_eq!(number_failure("18446744073709551616"), malformed(0, 20));
}

#[test]
fn hexadecimal_in_either_case() {
    assert_eq!(number_tokens("0Xff"), vec![integer(255), Token::EOF]);
    assert_eq!(number_tokens("0xABCDEF"), vec![integer(0xABCDEF), Token::EOF]);
    assert_eq!(number_tokens("0xe"), vec![integer(14), Token::EOF]);
}

#[test]
fn largest_hexadecimal_integer() {
    assert_eq!(
        number_tokens("0xFFFFFFFFFFFFFFFF"),
        vec![integer(u64::MAX), Token::EOF]
    );
}

#[test]
fn hexadecimal_beyond_64_bits_is_malformed() {
    assert_eq!(number_failure("0x10000000000000000"), malformed(0, 19));
}

#[test]
fn hexadecimal_prefix_without_digits_is_malformed() {
    assert_eq!(number_failure("0x"), malformed(0, 2));
    assert_eq!(number_failure("0x + 1"), malformed(0, 2));
}

#[test]
fn point_in_hexadecimal_is_malformed() {
    assert_eq!(number_failure("0x1.5"), malformed(0, 3));
}

#[test]
fn hexadecimal_has_no_exponent() {
    assert_eq!(number_tokens("0x1e2"), vec![integer(0x1e2), Token::EOF]);
}

#[test]
fn hexadecimal_prefix_only_after_a_single_zero() {
    assert_eq!(
        number_tokens("00x1"),
        vec![integer(0), Token::Name("x1".to_string()), Token::EOF]
    );
    assert_eq!(
        number_tokens("1x1"),
        vec![integer(1), Token::Name("x1".to_string()), Token::EOF]
    );
}

#[test]
fn fraction_makes_a_float() {
    assert_eq!(number_tokens("1.5"), vec![float("1.5"), Token::EOF]);
    assert_eq!(number_tokens("1."), vec![float("1."), Token::EOF]);
}

#[test]
fn leading_point_begins_a_float() {
    assert_eq!(number_tokens(".5"), vec![float(".5"), Token::EOF]);
    assert_eq!(number_tokens(".5e3"), vec![float(".5e3"), Token::EOF]);
}

#[test]
fn second_point_after_a_leading_point_is_malformed() {
    assert_eq!(number_failure(".5.5"), malformed(0, 2));
}

#[test]
fn exponent_markers_and_signs() {
    assert_eq!(number_tokens("1E5"), vec![float("1E5"), Token::EOF]);
    assert_eq!(number_tokens("1e+5"), vec![float("1e+5"), Token::EOF]);
    assert_eq!(number_tokens("2.5E-3"), vec![float("2.5E-3"), Token::EOF]);
    assert_eq!(number_tokens("1.e5"), vec![float("1.e5"), Token::EOF]);
}

#[test]
fn sign_after_exponent_digits_ends_the_literal() {
    assert_eq!(
        number_tokens("1e5+3"),
        vec![float("1e5"), Token::Symbol(Symbol::Add), integer(3), Token::EOF]
    );
    assert_eq!(
        number_tokens("1e-5-3"),
        vec![float("1e-5"), Token::Symbol(Symbol::Minus), integer(3), Token::EOF]
    );
}

#[test]
fn sign_without_exponent_ends_the_literal() {
    assert_eq!(
        number_tokens("1+2"),
        vec![integer(1), Token::Symbol(Symbol::Add), integer(2), Token::EOF]
    );
}

#[test]
fn exponent_without_digits_is_malformed() {
    assert_eq!(number_failure("1e"), malformed(0, 2));
    assert_eq!(number_failure("1e+"), malformed(0, 3));
    assert_eq!(number_failure("1e x"), malformed(0, 2));
}

#[test]
fn second_sign_is_not_taken() {
    assert_eq!(number_failure("1e+-5"), malformed(0, 3));
}

#[test]
fn second_exponent_marker_is_malformed() {
    assert_eq!(number_failure("1e5e5"), malformed(0, 5));
    assert_eq!(number_failure("1ee5"), malformed(0, 4));
}

#[test]
fn point_after_exponent_is_malformed() {
    assert_eq!(number_failure("1e5.5"), malformed(0, 3));
}

#[test]
fn hex_letter_in_decimal_is_malformed() {
    assert_eq!(number_failure("1a"), malformed(0, 1));
    assert_eq!(number_failure("12F"), malformed(0, 2));
    assert_eq!(number_failure("1.5d"), malformed(0, 3));
}

#[test]
fn other_letter_ends_the_literal() {
    assert_eq!(
        number_tokens("1g"),
        vec![integer(1), Token::Name("g".to_string()), Token::EOF]
    );
}

#[test]
fn number_before_concat_is_malformed() {
    assert_eq!(number_failure("1..2"), malformed(0, 2));
}

#[test]
fn digit_that_is_not_ascii_is_malformed() {
    assert_eq!(number_failure("٣"), malformed(0, 1));
    assert_eq!(number_failure("1٣"), malformed(0, 2));
    assert_eq!(number_failure("1.٣"), malformed(0, 3));
    assert_eq!(number_failure("0x٣"), malformed(0, 3));
}

#[test]
fn long_float_keeps_all_its_digits() {
    let text = "3.14159265358979323846264338327950288";
    let tokens = number_tokens(text);
    assert_eq!(tokens, vec![float(text), Token::EOF]);
    match &tokens[0] {
        Token::Number(Number::Float(t)) => {
            assert_eq!(t.parse::<f64>().unwrap(), std::f64::consts::PI)
        }
        other => panic!("not a float: {:?}", other),
    }
}

#[test]
fn parse_decimal_values() {
    assert_eq!(parse_decimal(&chars_of("0")), Some(0));
    assert_eq!(parse_decimal(&chars_of("1234567890")), Some(1234567890));
    assert_eq!(parse_decimal(&chars_of("18446744073709551615")), Some(u64::MAX));
    assert_eq!(parse_decimal(&chars_of("18446744073709551616")), None);
    assert_eq!(parse_decimal(&chars_of("99999999999999999999999")), None);
    assert_eq!(parse_decimal(&chars_of("")), None);
    assert_eq!(parse_decimal(&chars_of("12a")), None);
    assert_eq!(parse_decimal(&chars_of("+12")), None);
    assert_eq!(parse_decimal(&chars_of("1 2")), None);
}

#[test]
fn parse_hex_values() {
    assert_eq!(parse_hex(&chars_of("0")), Some(0));
    assert_eq!(parse_hex(&chars_of("1F")), Some(31));
    assert_eq!(parse_hex(&chars_of("deadBEEF")), Some(0xdead_beef));
    assert_eq!(parse_hex(&chars_of("ffffffffffffffff")), Some(u64::MAX));
    assert_eq!(parse_hex(&chars_of("10000000000000000")), None);
    assert_eq!(parse_hex(&chars_of("")), None);
    assert_eq!(parse_hex(&chars_of("1g")), None);
    assert_eq!(parse_hex(&chars_of("0x1")), None);
}

#[test]
fn float_text_accepts_decimal_literals() {
    for text in ["0", "12", "1.", ".5", "1.5", "1e5", "1E5", "1e+5", "1e-5", "1.e5", ".5e05", "1.5E+10"] {
        assert!(float_text(&chars_of(text)), "{text}");
        assert!(text.parse::<f64>().is_ok(), "{text}");
    }
}

#[test]
fn float_text_rejects_everything_else() {
    for text in [
        "", ".", "e5", ".e5", "1e", "1e+", "1e-", "1ee5", "1e5e5", "1.2.3", "1e5.5", "1e+-5", "+1",
        "-1", "1 ", "1a", "0x1", "1e5+",
    ] {
        assert!(!float_text(&chars_of(text)), "{text}");
        if !text.starts_with(['+', '-']) {
            assert!(text.parse::<f64>().is_err(), "{text}");
        }
    }
}

#[test]
fn number_state_takes_digits() {
    assert_eq!(PLAIN.next('7'), NumberStep::Take(PLAIN));
    let science = NumberState { float: true, science: true, ..PLAIN };
    assert_eq!(
        science.next('7'),
        NumberStep::Take(NumberState { number_power: true, ..science })
    );
}

#[test]
fn number_state_takes_a_point_once() {
    assert_eq!(PLAIN.next('.'), NumberStep::Take(NumberState { float: true, ..PLAIN }));
    assert_eq!(NumberState { float: true, ..PLAIN }.next('.'), NumberStep::Reject);
    assert_eq!(NumberState { hex: true, ..PLAIN }.next('.'), NumberStep::Reject);
}

#[test]
fn number_state_takes_an_exponent_marker() {
    let science = NumberState { float: true, science: true, ..PLAIN };
    assert_eq!(PLAIN.next('e'), NumberStep::Take(science));
    assert_eq!(PLAIN.next('E'), NumberStep::Take(science));
    let hex = NumberState { hex: true, ..PLAIN };
    assert_eq!(hex.next('e'), NumberStep::Take(hex));
}

#[test]
fn number_state_takes_hex_letters_only_in_hex() {
    let hex = NumberState { hex: true, ..PLAIN };
    assert_eq!(hex.next('a'), NumberStep::Take(hex));
    assert_eq!(hex.next('F'), NumberStep::Take(hex));
    assert_eq!(PLAIN.next('a'), NumberStep::Reject);
    assert_eq!(PLAIN.next('F'), NumberStep::Reject);
    assert_eq!(hex.next('g'), NumberStep::Stop);
}

#[test]
fn number_state_takes_one_sign_right_after_the_marker() {
    let science = NumberState { float: true, science: true, ..PLAIN };
    let signed = NumberState { signed_power: true, ..science };
    assert_eq!(science.next('-'), NumberStep::Take(signed));
    assert_eq!(science.next('+'), NumberStep::Take(signed));
    assert_eq!(signed.next('-'), NumberStep::Stop);
    assert_eq!(NumberState { number_power: true, ..science }.next('+'), NumberStep::Stop);
    assert_eq!(PLAIN.next('+'), NumberStep::Stop);
}

#[test]
fn number_state_stops_at_anything_else() {
    assert_eq!(PLAIN.next(' '), NumberStep::Stop);
    assert_eq!(PLAIN.next('x'), NumberStep::Stop);
    assert_eq!(PLAIN.next(')'), NumberStep::Stop);
    assert_eq!(PLAIN.next('\n'), NumberStep::Stop);
}
