use pep8asm::address::{self, AddrLocation, AddrMode, Address, AddressTable};
use pep8asm::instruction::{Error, Instruction};
use pep8asm::lexer::Token;
use pep8asm::register::Register;
use pep8asm::types::{Pep8Byte, Pep8Word};

fn ident(s: &str) -> Token {
    Token::Identifier(s.to_string())
}

fn encode(tokens: &[Token], table: &AddressTable) -> Vec<u8> {
    Instruction::from_tokens(tokens).unwrap().as_bytes(table).unwrap()
}

#[test]
fn zero_operand_instructions() {
    let t = AddressTable::new();
    assert_eq!(encode(&[ident("STOP")], &t), vec![0x00]);
    assert_eq!(encode(&[ident("rettr")], &t), vec![0x01]);
    assert_eq!(encode(&[ident("MovSpa")], &t), vec![0x02]);
    assert_eq!(encode(&[ident("MOVFLGA")], &t), vec![0x03]);
}

#[test]
fn branch_encoding() {
    let t = AddressTable::new();
    assert_eq!(encode(&[ident("BR"), Token::Number(0x1234)], &t), vec![0x04, 0x12, 0x34]);
    assert_eq!(
        encode(&[ident("CALL"), Token::Number(5), Token::Comma, ident("x")], &t),
        vec![0x17, 0x00, 0x05]
    );
    assert_eq!(encode(&[ident("breq"), Token::Number(1)], &t), vec![0x0A, 0x00, 0x01]);
}

#[test]
fn unary_register_encoding() {
    let t = AddressTable::new();
    assert_eq!(encode(&[ident("NOTA")], &t), vec![0x18]);
    assert_eq!(encode(&[ident("NOTX")], &t), vec![0x19]);
    assert_eq!(encode(&[ident("ASLX")], &t), vec![0x1D]);
    assert_eq!(encode(&[ident("RORA")], &t), vec![0x22]);
    assert_eq!(encode(&[ident("RORX")], &t), vec![0x23]);
}

#[test]
fn count_encoding() {
    let t = AddressTable::new();
    assert_eq!(encode(&[ident("NOP0")], &t), vec![0x24]);
    assert_eq!(encode(&[ident("NOP3")], &t), vec![0x27]);
    assert_eq!(encode(&[ident("RET0")], &t), vec![0x58]);
    assert_eq!(encode(&[ident("RET7")], &t), vec![0x5F]);
}

#[test]
fn long_operand_encoding() {
    let t = AddressTable::new();
    let ops = |m: &str| vec![Token::Number(0x0102), Token::Comma, ident(m)];
    let mut line = vec![ident("DECO")];
    line.extend(ops("sxf"));
    assert_eq!(encode(&line, &t), vec![0x3F, 0x01, 0x02]);
    let mut line = vec![ident("STRO")];
    line.extend(ops("sf"));
    assert_eq!(encode(&line, &t), vec![0x44, 0x01, 0x02]);
    let mut line = vec![ident("NOP")];
    line.extend(ops("i"));
    assert_eq!(encode(&line, &t), vec![0x28, 0x01, 0x02]);
}

#[test]
fn register_operand_encoding() {
    let t = AddressTable::new();
    let line = [ident("LDX"), Token::Number(7), Token::Comma, ident("s")];
    assert_eq!(encode(&line, &t), vec![0xC0 | 0x08 | 0x03, 0x00, 0x07]);
    let line = [ident("stbytex"), Token::Number(7), Token::Comma, ident("sxf")];
    assert_eq!(encode(&line, &t), vec![0xFF, 0x00, 0x07]);
    let line = [ident("ADDA"), Token::Char('A'), Token::Comma, ident("i")];
    assert_eq!(encode(&line, &t), vec![0x70, 0x00, 0x41]);
}

#[test]
fn store_with_immediate_is_illegal() {
    let line = [ident("STA"), ident("value"), Token::Comma, ident("i")];
    match Instruction::from_tokens(&line) {
        Err(Error::Address(address::Error::IllegalAddrMode(m))) => assert_eq!(m, AddrMode::Immediate),
        other => panic!("unexpected {:?}", other),
    }
    let line = [ident("DECI"), Token::Number(1), Token::Comma, ident("i")];
    assert!(matches!(
        Instruction::from_tokens(&line),
        Err(Error::Address(address::Error::IllegalAddrMode(AddrMode::Immediate)))
    ));
    let line = [ident("STRO"), Token::Number(1), Token::Comma, ident("s")];
    assert!(matches!(
        Instruction::from_tokens(&line),
        Err(Error::Address(address::Error::IllegalAddrMode(AddrMode::StackRelative)))
    ));
}

#[test]
fn unknown_mnemonic() {
    match Instruction::from_tokens(&[ident("JMP")]) {
        Err(Error::InvalidInstruction(name)) => assert_eq!(name, "JMP"),
        other => panic!("unexpected {:?}", other),
    }
    assert!(matches!(Instruction::from_tokens(&[Token::Comma]), Err(Error::MissingInstruction)));
    assert!(matches!(Instruction::from_tokens(&[]), Err(Error::MissingInstruction)));
    assert!(Instruction::from_mnemonic("JMP", &[]).is_none());
}

#[test]
fn undefined_label_in_operand() {
    let t = AddressTable::new();
    let i = Instruction::from_tokens(&[ident("BR"), ident("nowhere")]).unwrap();
    match i.as_bytes(&t) {
        Err(address::Error::UndefinedSymbol(name)) => assert_eq!(name, "nowhere"),
        other => panic!("unexpected {:?}", other),
    }
}

#[test]
fn branch_with_illegal_mode_fails_to_encode() {
    let t = AddressTable::new();
    let i = Instruction::BR(Address {
        location: AddrLocation::Memory(Pep8Word::new(1)),
        mode: AddrMode::Direct,
    });
    assert!(matches!(i.as_bytes(&t), Err(address::Error::IllegalAddrMode(AddrMode::Direct))));
}

#[test]
fn specifiers_and_sizes() {
    assert_eq!(Instruction::STOP.get_specifier(), 0x00);
    assert_eq!(Instruction::NOTr(Register::IndexRegister).get_specifier(), 0x18);
    assert_eq!(Instruction::RETn(Pep8Byte::new(2)).get_specifier(), 0x58);
    assert_eq!(Instruction::STOP.byte_size(), 1);
    assert_eq!(Instruction::NOPn(Pep8Byte::new(1)).byte_size(), 1);
    let a = Address { location: AddrLocation::Memory(Pep8Word::new(1)), mode: AddrMode::Direct };
    let i = Instruction::STBYTEr(Register::Accumulator, a);
    assert_eq!(i.get_specifier(), 0xF0);
    assert_eq!(i.byte_size(), 3);
}

#[test]
fn operand_label_resolved_through_table() {
    let mut t = AddressTable::new();
    t.insert("num".to_string(), Pep8Word::new(0x0203));
    let line = [ident("LDA"), ident("num"), Token::Comma, ident("d")];
    assert_eq!(encode(&line, &t), vec![0xC1, 0x02, 0x03]);
}
