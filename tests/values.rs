use pep8asm::types::{Pep8Byte, Pep8Word, ValueError};

#[test]
fn word_bytes_are_big_endian() {
    assert_eq!(Pep8Word::new(0x1234).as_bytes(), [0x12, 0x34]);
    assert_eq!(Pep8Word::new(5).as_bytes(), [0x00, 0x05]);
    assert_eq!(Pep8Word::new(0xFFFF).as_bytes(), [0xFF, 0xFF]);
}

#[test]
fn word_round_trip_for_every_value() {
    for x in 0..=u16::MAX {
        let bytes = Pep8Word::new(x).as_bytes();
        assert_eq!(bytes[0] as u16 * 256 + bytes[1] as u16, x);
        assert_eq!(Pep8Word::from_bytes(&bytes).unwrap(), Pep8Word::new(x));
    }
}

#[test]
fn word_from_short_byte_strings() {
    assert_eq!(Pep8Word::from_bytes(&[]).unwrap(), Pep8Word::new(0));
    assert_eq!(Pep8Word::from_bytes(&[0x41]).unwrap(), Pep8Word::new(0x41));
    assert_eq!(Pep8Word::from_bytes(&[0x41, 0x42]).unwrap(), Pep8Word::new(0x4142));
}

#[test]
fn word_from_three_bytes_fails() {
    assert_eq!(Pep8Word::from_bytes(&[1, 2, 3]), Err(ValueError::TooManyBytes(3)));
    assert_eq!(Pep8Word::from_text("abc"), Err(ValueError::TooManyBytes(3)));
}

#[test]
fn word_from_text_packs_utf8_bytes() {
    assert_eq!(Pep8Word::from_text("AB").unwrap(), Pep8Word::new(0x4142));
    assert_eq!(Pep8Word::from_text("").unwrap(), Pep8Word::new(0));
    assert_eq!(Pep8Word::from_text("\u{e9}").unwrap(), Pep8Word::new(0xC3A9));
}

#[test]
fn word_from_char() {
    assert_eq!(Pep8Word::from_char('A').unwrap(), Pep8Word::new(65));
    assert_eq!(Pep8Word::from_char('\u{e9}'), Err(ValueError::NonAsciiChar('\u{e9}')));
}

#[test]
fn byte_conversions() {
    assert_eq!(Pep8Byte::from_char('a').unwrap().as_byte(), 0x61);
    assert_eq!(Pep8Byte::from_char('\u{100}'), Err(ValueError::NonAsciiChar('\u{100}')));
    assert_eq!(Pep8Byte::from_text("z").unwrap().as_byte(), b'z');
    assert_eq!(Pep8Byte::from_text("").unwrap().as_byte(), 0);
    assert_eq!(Pep8Byte::from_text("ab"), Err(ValueError::TooManyBytes(2)));
    assert_eq!(Pep8Byte::from_number(0x1FF).as_byte(), 0xFF);
    assert_eq!(Pep8Byte::from_number(7).as_byte(), 7);
}

#[test]
fn byte_addition() {
    assert_eq!(Pep8Byte::new(0x24).add(Pep8Byte::new(3)), Pep8Byte::new(0x27));
    assert_eq!(Pep8Byte::new(200).add(Pep8Byte::new(55)).as_byte(), 255);
}

#[test]
fn bytes_are_ordered_by_value() {
    assert!(Pep8Byte::new(3) < Pep8Byte::new(4));
    assert!(Pep8Byte::new(0xFF) > Pep8Byte::new(0x7F));
    assert_eq!(Pep8Byte::new(9).partial_cmp(&Pep8Byte::new(9)), Some(std::cmp::Ordering::Equal));
    assert_eq!(Pep8Byte::new(1).cmp(&Pep8Byte::new(2)), std::cmp::Ordering::Less);
    assert_eq!(Pep8Byte::new(2).max(Pep8Byte::new(7)), Pep8Byte::new(7));
}

#[test]
fn conversion_traits() {
    let bytes: &[u8] = &[0x01, 0x02];
    assert_eq!(Pep8Word::try_from(bytes).unwrap(), Pep8Word::new(0x0102));
    assert_eq!(Pep8Word::try_from(&'B').unwrap(), Pep8Word::new(66));
    assert_eq!(Pep8Word::try_from(&"hi".to_string()).unwrap(), Pep8Word::new(0x6869));
    assert_eq!(Pep8Word::try_from("xyz"), Err(ValueError::TooManyBytes(3)));
    assert_eq!(Pep8Word::from(&500u16), Pep8Word::new(500));
    assert_eq!(Pep8Byte::try_from(&'B').unwrap(), Pep8Byte::new(66));
    assert_eq!(Pep8Byte::try_from(&"".to_string()).unwrap(), Pep8Byte::new(0));
    assert_eq!(Pep8Byte::try_from(&"no".to_string()), Err(ValueError::TooManyBytes(2)));
    assert_eq!(Pep8Byte::from(&0x1234u16), Pep8Byte::new(0x34));
}
