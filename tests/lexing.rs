use pep8asm::lexer::{parse_line, Error, Token};

fn ident(s: &str) -> Token {
    Token::Identifier(s.to_string())
}

#[test]
fn instruction_line() {
    let t = parse_line("main: DECI num,d ; read a number").unwrap();
    assert_eq!(
        t,
        vec![
            Token::Label("main".to_string()),
            ident("DECI"),
            ident("num"),
            Token::Comma,
            ident("d"),
        ]
    );
}

#[test]
fn directive_and_literals() {
    let t = parse_line(".ASCII \"a\\nb\\x41\"").unwrap();
    assert_eq!(t, vec![Token::DotCommand(".ASCII".to_string()), Token::String("a\nbA".to_string())]);
    let t = parse_line(".BYTE 'x'").unwrap();
    assert_eq!(t, vec![Token::DotCommand(".BYTE".to_string()), Token::Char('x')]);
    let t = parse_line(".BYTE '\\t'").unwrap();
    assert_eq!(t[1], Token::Char('\t'));
}

#[test]
fn numbers() {
    assert_eq!(parse_line("65535").unwrap(), vec![Token::Number(65535)]);
    assert_eq!(parse_line("+12,3").unwrap(), vec![Token::Number(12), Token::Comma, Token::Number(3)]);
    assert_eq!(parse_line("0x10").unwrap(), vec![Token::Number(16)]);
    assert_eq!(parse_line("0X99\t").unwrap(), vec![Token::Number(0x99)]);
    assert_eq!(parse_line("007").unwrap(), vec![Token::Number(7)]);
}

#[test]
fn bad_numbers() {
    assert_eq!(parse_line("65536"), Err(Error::InvalidNumber));
    assert_eq!(parse_line("-5"), Err(Error::InvalidNumber));
    assert_eq!(parse_line("+"), Err(Error::InvalidNumber));
    assert_eq!(parse_line("0x"), Err(Error::InvalidNumber));
    assert_eq!(parse_line("0x1F"), Err(Error::InvalidNumber));
    assert_eq!(parse_line("12;"), Err(Error::InvalidNumber));
    assert_eq!(parse_line("12a"), Err(Error::InvalidNumber));
}

#[test]
fn comments_and_blank_lines() {
    assert_eq!(parse_line("").unwrap(), vec![]);
    assert_eq!(parse_line("   \t ").unwrap(), vec![]);
    assert_eq!(parse_line("; all comment \"").unwrap(), vec![]);
    assert_eq!(parse_line("STOP;x").unwrap(), vec![ident("STOP")]);
}

#[test]
fn char_literal_errors() {
    assert_eq!(parse_line("''"), Err(Error::InvalidChar));
    assert_eq!(parse_line("'a"), Err(Error::InvalidChar));
    assert_eq!(parse_line("'"), Err(Error::InvalidChar));
    assert_eq!(parse_line("'ab'"), Err(Error::InvalidChar));
    assert_eq!(parse_line("'\\q'"), Err(Error::InvalidEscapedChar));
    assert_eq!(parse_line("'\\"), Err(Error::UnexpectedEndOfLine));
}

#[test]
fn string_errors() {
    assert_eq!(parse_line("\"abc"), Err(Error::InvalidString));
    assert_eq!(parse_line("\"\\xZZ\""), Err(Error::InvalidHexValue));
    assert_eq!(parse_line("\"\\x4"), Err(Error::UnexpectedEndOfLine));
    assert_eq!(parse_line("\"\\x+A\"").unwrap(), vec![Token::String("\n".to_string())]);
}

#[test]
fn names_labels_directives() {
    assert_eq!(parse_line("_x1:").unwrap(), vec![Token::Label("_x1".to_string())]);
    assert_eq!(parse_line(".block").unwrap(), vec![Token::DotCommand(".block".to_string())]);
    assert_eq!(parse_line(".END:"), Err(Error::InvalidDotCommand));
    assert_eq!(parse_line("a-b"), Err(Error::InvalidNumber));
    assert_eq!(parse_line("#"), Err(Error::InvalidChar));
}

#[test]
fn token_clone_is_equal() {
    let t = Token::String("hi".to_string());
    assert_eq!(t.clone(), t);
}
