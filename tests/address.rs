use pep8asm::address::{AddrLocation, AddrMode, Address, AddressTable, Error};
use pep8asm::lexer::Token;
use pep8asm::register::Register;
use pep8asm::types::{Pep8Word, ValueError};

fn ident(s: &str) -> Token {
    Token::Identifier(s.to_string())
}

const MODES: [(&str, AddrMode, u8); 8] = [
    ("i", AddrMode::Immediate, 0b000),
    ("d", AddrMode::Direct, 0b001),
    ("n", AddrMode::Indirect, 0b010),
    ("s", AddrMode::StackRelative, 0b011),
    ("sf", AddrMode::StackRelativeDeferred, 0b100),
    ("x", AddrMode::Indexed, 0b101),
    ("sx", AddrMode::StackIndexed, 0b110),
    ("sxf", AddrMode::StackIndexedDeferred, 0b111),
];

#[test]
fn long_codes_round_trip_through_mnemonics() {
    let mut seen = Vec::new();
    for (text, mode, code) in MODES {
        let parsed = AddrMode::from_str(text).unwrap();
        assert_eq!(parsed, mode);
        assert_eq!(parsed.as_byte_long(), code);
        assert!(!seen.contains(&code));
        seen.push(code);
    }
}

#[test]
fn unknown_mode_mnemonic() {
    match AddrMode::from_str("q") {
        Err(Error::InvalidAddrModeString(s)) => assert_eq!(s, "q"),
        other => panic!("unexpected {:?}", other),
    }
    assert!(matches!(AddrMode::from_str("I"), Err(Error::InvalidAddrModeString(_))));
}

#[test]
fn short_codes() {
    for (_, mode, _) in MODES {
        match mode {
            AddrMode::Immediate => assert_eq!(mode.as_byte_short().unwrap(), 0),
            AddrMode::Indexed => assert_eq!(mode.as_byte_short().unwrap(), 1),
            _ => match mode.as_byte_short() {
                Err(Error::IllegalAddrMode(m)) => assert_eq!(m, mode),
                other => panic!("unexpected {:?}", other),
            },
        }
    }
}

#[test]
fn register_bits() {
    assert_eq!(Register::Accumulator.as_byte(), 0);
    assert_eq!(Register::IndexRegister.as_byte(), 1);
}

#[test]
fn locations_from_tokens() {
    assert_eq!(
        AddrLocation::from_token(Token::Number(12)).unwrap(),
        AddrLocation::Memory(Pep8Word::new(12))
    );
    assert_eq!(
        AddrLocation::from_token(Token::Char('A')).unwrap(),
        AddrLocation::Memory(Pep8Word::new(65))
    );
    assert_eq!(
        AddrLocation::from_token(Token::String("AB".to_string())).unwrap(),
        AddrLocation::Memory(Pep8Word::new(0x4142))
    );
    assert_eq!(
        AddrLocation::from_token(ident("main")).unwrap(),
        AddrLocation::Label("main".to_string())
    );
    assert!(matches!(
        AddrLocation::from_token(Token::Comma),
        Err(Error::InvalidAddressTokenType(Token::Comma))
    ));
    assert!(matches!(
        AddrLocation::from_token(Token::String("abc".to_string())),
        Err(Error::InvalidValue(ValueError::TooManyBytes(3)))
    ));
}

#[test]
fn short_operand_forms() {
    let a = Address::from_tokens_short(&[ident("main")]).unwrap();
    assert_eq!(a.location, AddrLocation::Label("main".to_string()));
    assert_eq!(a.mode, AddrMode::Immediate);
    let a = Address::from_tokens_short(&[Token::Number(3), Token::Comma, ident("x")]).unwrap();
    assert_eq!(a.location, AddrLocation::Memory(Pep8Word::new(3)));
    assert_eq!(a.mode, AddrMode::Indexed);
}

#[test]
fn short_operand_rejects_other_modes() {
    let r = Address::from_tokens_short(&[Token::Number(3), Token::Comma, ident("d")]);
    assert!(matches!(r, Err(Error::IllegalAddrMode(AddrMode::Direct))));
    let r = Address::from_tokens_short(&[Token::Number(3), Token::Comma]);
    assert!(matches!(r, Err(Error::MalformedAddrMode)));
    let r = Address::from_tokens_short(&[]);
    assert!(matches!(r, Err(Error::MalformedAddrMode)));
    let r = Address::from_tokens_short(&[Token::Number(3), Token::Comma, ident("zz")]);
    assert!(matches!(r, Err(Error::InvalidAddrModeString(_))));
}

#[test]
fn long_operand_checks_legal_set() {
    let legal = [AddrMode::Direct, AddrMode::Indexed];
    let a = Address::from_tokens_long(&[ident("num"), Token::Comma, ident("d")], &legal).unwrap();
    assert_eq!(a.mode, AddrMode::Direct);
    let r = Address::from_tokens_long(&[ident("num"), Token::Comma, ident("i")], &legal);
    assert!(matches!(r, Err(Error::IllegalAddrMode(AddrMode::Immediate))));
    let r = Address::from_tokens_long(&[ident("num")], &legal);
    assert!(matches!(r, Err(Error::MalformedAddrMode)));
}

#[test]
fn table_insert_get_resolve() {
    let mut t = AddressTable::new();
    assert_eq!(t.get(&"a".to_string()), None);
    assert_eq!(t.insert("a".to_string(), Pep8Word::new(3)), None);
    assert_eq!(t.insert("b".to_string(), Pep8Word::new(9)), None);
    assert_eq!(t.get(&"a".to_string()), Some(&Pep8Word::new(3)));
    assert_eq!(t.insert("a".to_string(), Pep8Word::new(7)), Some(Pep8Word::new(3)));
    assert_eq!(t.get(&"a".to_string()), Some(&Pep8Word::new(7)));
    let label = Address { location: AddrLocation::Label("b".to_string()), mode: AddrMode::Direct };
    assert_eq!(t.resolve(&label), Some(Pep8Word::new(9)));
    let missing = Address { location: AddrLocation::Label("c".to_string()), mode: AddrMode::Direct };
    assert_eq!(t.resolve(&missing), None);
    let memory = Address { location: AddrLocation::Memory(Pep8Word::new(42)), mode: AddrMode::Immediate };
    assert_eq!(t.resolve(&memory), Some(Pep8Word::new(42)));
}

#[test]
fn mode_mnemonics_print_and_parse_back() {
    for (text, mode, _) in MODES {
        assert_eq!(mode.mnemonic(), text);
        assert_eq!(AddrMode::from_str(mode.mnemonic()).unwrap(), mode);
    }
}
