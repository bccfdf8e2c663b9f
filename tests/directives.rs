use pep8asm::address::{self, AddressTable};
use pep8asm::dotcommand::{DotCommand, Error, Expected};
use pep8asm::lexer::Token;
use pep8asm::types::{Pep8Word, ValueError};

fn dot(s: &str) -> Token {
    Token::DotCommand(s.to_string())
}

#[test]
fn block_emits_zero_bytes() {
    let t = AddressTable::new();
    for n in [0u16, 1, 2, 5, 300] {
        let d = DotCommand::from_tokens(&[dot(".BLOCK"), Token::Number(n)]).unwrap();
        assert_eq!(d.byte_size(), n as usize);
        assert_eq!(d.as_bytes(&t).unwrap(), vec![0u8; n as usize]);
    }
}

#[test]
fn ascii_emits_raw_bytes() {
    let t = AddressTable::new();
    let d = DotCommand::from_tokens(&[dot(".ASCII"), Token::String("abc".to_string())]).unwrap();
    assert_eq!(d.as_bytes(&t).unwrap(), vec![0x61, 0x62, 0x63]);
    assert_eq!(d.byte_size(), 3);
}

#[test]
fn byte_and_word_directives() {
    let t = AddressTable::new();
    let d = DotCommand::from_tokens(&[dot(".byte"), Token::Char('A')]).unwrap();
    assert_eq!(d.as_bytes(&t).unwrap(), vec![0x41]);
    let d = DotCommand::from_tokens(&[dot(".BYTE"), Token::Number(0x1FF)]).unwrap();
    assert_eq!(d.as_bytes(&t).unwrap(), vec![0xFF]);
    let d = DotCommand::from_tokens(&[dot(".BYTE"), Token::String("z".to_string())]).unwrap();
    assert_eq!(d.as_bytes(&t).unwrap(), vec![0x7A]);
    let d = DotCommand::from_tokens(&[dot(".Word"), Token::Number(0xBEEF)]).unwrap();
    assert_eq!(d.as_bytes(&t).unwrap(), vec![0xBE, 0xEF]);
    assert_eq!(d.byte_size(), 2);
    let d = DotCommand::from_tokens(&[dot(".WORD"), Token::String("hi".to_string())]).unwrap();
    assert_eq!(d.as_bytes(&t).unwrap(), vec![0x68, 0x69]);
}

#[test]
fn literal_too_long_for_value() {
    let r = DotCommand::from_tokens(&[dot(".BYTE"), Token::String("ab".to_string())]);
    assert!(matches!(r, Err(Error::InvalidValue(ValueError::TooManyBytes(2)))));
    let r = DotCommand::from_tokens(&[dot(".WORD"), Token::String("abc".to_string())]);
    assert!(matches!(r, Err(Error::InvalidValue(ValueError::TooManyBytes(3)))));
}

#[test]
fn end_is_empty() {
    let t = AddressTable::new();
    let d = DotCommand::from_tokens(&[dot(".END")]).unwrap();
    assert_eq!(d.byte_size(), 0);
    assert_eq!(d.as_bytes(&t).unwrap(), Vec::<u8>::new());
}

#[test]
fn addrss_needs_a_defined_label() {
    let d = DotCommand::from_tokens(&[dot(".ADDRSS"), Token::Identifier("missing".to_string())]);
    let d = d.unwrap();
    assert_eq!(d.byte_size(), 2);
    match d.as_bytes(&AddressTable::new()) {
        Err(address::Error::UndefinedSymbol(name)) => assert_eq!(name, "missing"),
        other => panic!("unexpected {:?}", other),
    }
    let mut t = AddressTable::new();
    t.insert("missing".to_string(), Pep8Word::new(0x0A0B));
    assert_eq!(d.as_bytes(&t).unwrap(), vec![0x0A, 0x0B]);
}

#[test]
fn directive_argument_errors() {
    let r = DotCommand::from_tokens(&[dot(".ADDRSS"), Token::Number(1)]);
    assert!(matches!(r, Err(Error::InvalidArguments(Expected::Label))));
    let r = DotCommand::from_tokens(&[dot(".ASCII"), Token::Char('a')]);
    assert!(matches!(r, Err(Error::InvalidArguments(Expected::Text))));
    let r = DotCommand::from_tokens(&[dot(".BLOCK")]);
    assert!(matches!(r, Err(Error::InvalidArguments(Expected::Number))));
    let r = DotCommand::from_tokens(&[dot(".BYTE"), Token::Comma]);
    assert!(matches!(r, Err(Error::InvalidArguments(Expected::Value))));
    let r = DotCommand::from_tokens(&[dot(".END"), Token::Number(1)]);
    assert!(matches!(r, Err(Error::InvalidArguments(Expected::Nothing))));
    let r = DotCommand::from_tokens(&[dot(".WORD"), Token::Number(1), Token::Number(2)]);
    assert!(matches!(r, Err(Error::InvalidArguments(Expected::Value))));
}

#[test]
fn unknown_directive() {
    match DotCommand::from_tokens(&[dot(".EQUATE"), Token::Number(1)]) {
        Err(Error::InvalidDotCommand(name)) => assert_eq!(name, ".EQUATE"),
        other => panic!("unexpected {:?}", other),
    }
    assert!(matches!(DotCommand::from_tokens(&[dot(".BURN")]), Err(Error::InvalidDotCommand(_))));
    assert!(matches!(DotCommand::from_tokens(&[Token::Comma]), Err(Error::MissingDotCommand)));
    assert!(DotCommand::from_name(".NOPE", &[]).is_none());
}
