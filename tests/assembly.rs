use pep8asm::address::{self, AddressTable};
use pep8asm::assembler::{assemble, Error, Statement, StatementLine};
use pep8asm::instruction;
use pep8asm::lexer::Token;

fn ident(s: &str) -> Token {
    Token::Identifier(s.to_string())
}

fn label(s: &str) -> Token {
    Token::Label(s.to_string())
}

fn dot(s: &str) -> Token {
    Token::DotCommand(s.to_string())
}

#[test]
fn end_to_end_program() {
    let lines = vec![
        vec![ident("BR"), ident("main")],
        vec![label("num"), dot(".BLOCK"), Token::Number(2)],
        vec![label("main"), ident("DECI"), ident("num"), Token::Comma, ident("d")],
        vec![ident("STOP")],
    ];
    let image = assemble(lines).unwrap();
    assert_eq!(image.len(), 9);
    assert_eq!(image, vec![0x04, 0x00, 0x05, 0x00, 0x00, 0x31, 0x00, 0x03, 0x00]);
    assert_eq!(image[5], 0x30 | 0b001);
}

#[test]
fn forward_reference_resolves() {
    let lines = vec![
        vec![ident("BR"), ident("later")],
        vec![ident("NOP0")],
        vec![dot(".WORD"), Token::Number(7)],
        vec![label("later"), ident("STOP")],
        vec![dot(".ADDRSS"), ident("later")],
    ];
    let image = assemble(lines).unwrap();
    assert_eq!(image, vec![0x04, 0x00, 0x06, 0x24, 0x00, 0x07, 0x00, 0x00, 0x06]);
}

#[test]
fn illegal_store_mode_fails() {
    let lines = vec![vec![ident("STA"), ident("value"), Token::Comma, ident("i")]];
    assert!(matches!(
        assemble(lines),
        Err(Error::Instruction(instruction::Error::Address(address::Error::IllegalAddrMode(
            pep8asm::address::AddrMode::Immediate
        ))))
    ));
}

#[test]
fn undefined_symbol_fails_at_encoding() {
    let line = vec![dot(".ADDRSS"), ident("missing")];
    let parsed = StatementLine::from_tokens(&line).unwrap();
    assert_eq!(parsed.byte_size(), 2);
    assert!(matches!(
        parsed.as_bytes(&AddressTable::new()),
        Err(address::Error::UndefinedSymbol(_))
    ));
    match assemble(vec![line]) {
        Err(Error::Address(address::Error::UndefinedSymbol(name))) => assert_eq!(name, "missing"),
        other => panic!("unexpected {:?}", other),
    }
}

#[test]
fn later_label_definition_wins() {
    let lines = vec![
        vec![label("x"), ident("STOP")],
        vec![label("x"), ident("STOP")],
        vec![dot(".ADDRSS"), ident("x")],
    ];
    assert_eq!(assemble(lines).unwrap(), vec![0x00, 0x00, 0x00, 0x01]);
}

#[test]
fn size_matches_encoding_for_each_kind() {
    let mut table = AddressTable::new();
    table.insert("here".to_string(), pep8asm::types::Pep8Word::new(0x10));
    let lines = vec![
        vec![ident("STOP")],
        vec![ident("BRNE"), ident("here")],
        vec![ident("NEGX")],
        vec![ident("RET3")],
        vec![ident("CHARO"), Token::Char('x'), Token::Comma, ident("i")],
        vec![ident("ORX"), ident("here"), Token::Comma, ident("n")],
        vec![dot(".ADDRSS"), ident("here")],
        vec![dot(".ASCII"), Token::String("hello".to_string())],
        vec![dot(".BLOCK"), Token::Number(4)],
        vec![dot(".BYTE"), Token::Number(1)],
        vec![dot(".END")],
        vec![dot(".WORD"), Token::Char('q')],
    ];
    for line in lines {
        let s = Statement::from_tokens(&line).unwrap();
        assert_eq!(s.as_bytes(&table).unwrap().len(), s.byte_size());
    }
}

#[test]
fn statement_errors() {
    assert!(matches!(Statement::from_tokens(&[]), Err(Error::TokensEmpty)));
    assert!(matches!(Statement::from_tokens(&[Token::Number(1)]), Err(Error::InvalidTokenType)));
    assert!(matches!(StatementLine::from_tokens(&[]), Err(Error::TokensEmpty)));
    assert!(matches!(StatementLine::from_tokens(&[label("x")]), Err(Error::TokensEmpty)));
    assert!(matches!(
        StatementLine::from_tokens(&[ident("FOO")]),
        Err(Error::Instruction(instruction::Error::InvalidInstruction(_)))
    ));
    assert!(matches!(
        StatementLine::from_tokens(&[dot(".FOO")]),
        Err(Error::DotCommand(pep8asm::dotcommand::Error::InvalidDotCommand(_)))
    ));
}

#[test]
fn statement_line_keeps_label() {
    let l = StatementLine::from_tokens(&[label("top"), ident("STOP")]).unwrap();
    assert_eq!(l.label, Some("top".to_string()));
    let l = StatementLine::from_tokens(&[ident("STOP")]).unwrap();
    assert_eq!(l.label, None);
}

#[test]
fn empty_program_assembles_to_nothing() {
    assert_eq!(assemble(vec![]).unwrap(), Vec::<u8>::new());
}

#[test]
fn first_bad_line_is_reported() {
    let lines = vec![vec![ident("STOP")], vec![Token::Comma], vec![ident("BOGUS")]];
    assert!(matches!(assemble(lines), Err(Error::InvalidTokenType)));
}
