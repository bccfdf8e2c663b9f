//! Words and bytes of the machine, and how literals become them.

use vstd::prelude::*;
use vstd::string::StringSliceAdditionalSpecFns;
use vstd::utf8::encode_utf8;

verus! {

/// Why a literal could not be turned into a word or a byte.
#[derive(Debug, Clone, Copy, PartialEq, Eq)]
pub enum ValueError {
    /// A character literal outside the ASCII range.
    NonAsciiChar(char),
    /// A byte string longer than the value can hold (its length is carried).
    TooManyBytes(usize),
}

/// Whether a character is in the 7-bit ASCII range.
pub open spec fn is_ascii_char(c: char) -> bool {
    (c as u32) < 128
}

/// Big-endian serialization of a word: high byte, then low byte.
pub open spec fn word_bytes(w: u16) -> Seq<u8> {
    seq![(w / 256) as u8, (w % 256) as u8]
}

/// The big-endian value of at most two bytes (zero for none).
pub open spec fn be_value(b: Seq<u8>) -> u16
    recommends
        b.len() <= 2,
{
    if b.len() == 0 {
        0
    } else if b.len() == 1 {
        b[0] as u16
    } else {
        (b[0] * 256 + b[1]) as u16
    }
}

/// The word of a character literal: its code if it is ASCII.
pub open spec fn word_of_char(c: char) -> Result<Pep8Word, ValueError> {
    if is_ascii_char(c) {
        Ok(Pep8Word(c as u16))
    } else {
        Err(ValueError::NonAsciiChar(c))
    }
}

/// The word of a byte string: its big-endian value if it has at most two bytes.
pub open spec fn word_of_bytes(b: Seq<u8>) -> Result<Pep8Word, ValueError> {
    if b.len() <= 2 {
        Ok(Pep8Word(be_value(b)))
    } else {
        Err(ValueError::TooManyBytes(b.len() as usize))
    }
}

/// The byte of a character literal: its code if it is ASCII.
pub open spec fn byte_of_char(c: char) -> Result<Pep8Byte, ValueError> {
    if is_ascii_char(c) {
        Ok(Pep8Byte(c as u8))
    } else {
        Err(ValueError::NonAsciiChar(c))
    }
}

/// The byte of a byte string: its only byte, zero if it is empty.
pub open spec fn byte_of_bytes(b: Seq<u8>) -> Result<Pep8Byte, ValueError> {
    if b.len() == 0 {
        Ok(Pep8Byte(0))
    } else if b.len() == 1 {
        Ok(Pep8Byte(b[0]))
    } else {
        Err(ValueError::TooManyBytes(b.len() as usize))
    }
}

/// A 16-bit machine word, serialized most-significant byte first.
#[derive(Debug, Clone, Copy, PartialEq, Eq)]
pub struct Pep8Word(pub u16);

impl Pep8Word {
    pub fn new(value: u16) -> (r: Self)
        ensures
            r.0 == value,
    {
        Self(value)
    }

    /// The two bytes of the word, high byte first.
    pub fn as_bytes(&self) -> (r: [u8; 2])
        ensures
            r@ == word_bytes(self.0),
    {
        let r = [(self.0 / 256) as u8, (self.0 % 256) as u8];
        assert(r@ =~= word_bytes(self.0));
        r
    }

    /// A word holding the code of an ASCII character.
    pub fn from_char(c: char) -> (r: Result<Self, ValueError>)
        ensures
            r == word_of_char(c),
    {
        if (c as u32) < 128 {
            Ok(Self((c as u32) as u16))
        } else {
            Err(ValueError::NonAsciiChar(c))
        }
    }

    /// Packs at most two bytes into a word, big-endian; no bytes give zero.
    pub fn from_bytes(b: &[u8]) -> (r: Result<Self, ValueError>)
        ensures
            r == word_of_bytes(b@),
    {
        let n = b.len();
        if n == 0 {
            Ok(Self(0))
        } else if n == 1 {
            Ok(Self(b[0] as u16))
        } else if n == 2 {
            Ok(Self((b[0] as u16) * 256 + (b[1] as u16)))
        } else {
            Err(ValueError::TooManyBytes(n))
        }
    }

    /// Packs the UTF-8 bytes of a text into a word, as `from_bytes` does.
    pub fn from_text(s: &str) -> (r: Result<Self, ValueError>)
        ensures
            r == word_of_bytes(s.spec_bytes()),
    {
        Self::from_bytes(s.as_bytes())
    }
}

/// Serializing a word gives two bytes, high byte first, and packing them again
/// gives the word back.
pub proof fn lemma_word_round_trip(x: u16)
    ensures
        word_bytes(x).len() == 2,
        word_bytes(x)[0] == x / 256,
        word_bytes(x)[1] == x % 256,
        word_of_bytes(word_bytes(x)) == Ok::<Pep8Word, ValueError>(Pep8Word(x)),
{
}

/// An 8-bit value, ordered as its number.
#[derive(Debug, Clone, Copy, PartialEq, Eq, Ord)]
pub struct Pep8Byte(pub u8);

/// How two bytes compare.
pub open spec fn byte_order(a: Pep8Byte, b: Pep8Byte) -> std::cmp::Ordering {
    if a.0 < b.0 {
        std::cmp::Ordering::Less
    } else if a.0 == b.0 {
        std::cmp::Ordering::Equal
    } else {
        std::cmp::Ordering::Greater
    }
}

impl PartialOrd for Pep8Byte {
    fn partial_cmp(&self, other: &Self) -> (r: Option<std::cmp::Ordering>) {
        if self.0 < other.0 {
            Some(std::cmp::Ordering::Less)
        } else if self.0 == other.0 {
            Some(std::cmp::Ordering::Equal)
        } else {
            Some(std::cmp::Ordering::Greater)
        }
    }
}

impl vstd::std_specs::cmp::PartialOrdSpecImpl for Pep8Byte {
    open spec fn obeys_partial_cmp_spec() -> bool {
        true
    }

    open spec fn partial_cmp_spec(&self, other: &Self) -> Option<std::cmp::Ordering> {
        Some(byte_order(*self, *other))
    }
}

impl Pep8Byte {
    pub fn new(value: u8) -> (r: Self)
        ensures
            r.0 == value,
    {
        Self(value)
    }

    pub fn as_byte(self) -> (r: u8)
        ensures
            r == self.0,
    {
        self.0
    }

    /// The sum of two bytes; the caller rules out overflow.
    pub fn add(self, rhs: Self) -> (r: Self)
        requires
            self.0 + rhs.0 <= 255,
        ensures
            r.0 == self.0 + rhs.0,
    {
        Self(self.0 + rhs.0)
    }

    /// The low eight bits of a number.
    pub fn from_number(value: u16) -> (r: Self)
        ensures
            r.0 == value % 256,
    {
        Self((value % 256) as u8)
    }

    /// A byte holding the code of an ASCII character.
    pub fn from_char(c: char) -> (r: Result<Self, ValueError>)
        ensures
            r == byte_of_char(c),
    {
        if (c as u32) < 128 {
            Ok(Self((c as u32) as u8))
        } else {
            Err(ValueError::NonAsciiChar(c))
        }
    }

    /// The single UTF-8 byte of a text, or zero for the empty text.
    pub fn from_text(s: &str) -> (r: Result<Self, ValueError>)
        ensures
            r == byte_of_bytes(s.spec_bytes()),
    {
        let b = s.as_bytes();
        let n = b.len();
        if n == 0 {
            Ok(Self(0))
        } else if n == 1 {
            Ok(Self(b[0]))
        } else {
            Err(ValueError::TooManyBytes(n))
        }
    }
}

impl<'a> TryFrom<&'a [u8]> for Pep8Word {
    type Error = ValueError;

    fn try_from(value: &'a [u8]) -> (r: Result<Self, ValueError>) {
        Self::from_bytes(value)
    }
}

impl<'a> vstd::std_specs::convert::TryFromSpecImpl<&'a [u8]> for Pep8Word {
    open spec fn obeys_try_from_spec() -> bool {
        true
    }

    open spec fn try_from_spec(value: &'a [u8]) -> Result<Self, ValueError> {
        word_of_bytes(value@)
    }
}

impl<'a> TryFrom<&'a char> for Pep8Word {
    type Error = ValueError;

    fn try_from(value: &'a char) -> (r: Result<Self, ValueError>) {
        Self::from_char(*value)
    }
}

impl<'a> vstd::std_specs::convert::TryFromSpecImpl<&'a char> for Pep8Word {
    open spec fn obeys_try_from_spec() -> bool {
        true
    }

    open spec fn try_from_spec(value: &'a char) -> Result<Self, ValueError> {
        word_of_char(*value)
    }
}

impl<'a> TryFrom<&'a String> for Pep8Word {
    type Error = ValueError;

    fn try_from(value: &'a String) -> (r: Result<Self, ValueError>) {
        Self::from_text(value.as_str())
    }
}

impl<'a> vstd::std_specs::convert::TryFromSpecImpl<&'a String> for Pep8Word {
    open spec fn obeys_try_from_spec() -> bool {
        true
    }

    open spec fn try_from_spec(value: &'a String) -> Result<Self, ValueError> {
        word_of_bytes(encode_utf8(value@))
    }
}

impl<'a> TryFrom<&'a str> for Pep8Word {
    type Error = ValueError;

    fn try_from(value: &'a str) -> (r: Result<Self, ValueError>) {
        Self::from_text(value)
    }
}

impl<'a> vstd::std_specs::convert::TryFromSpecImpl<&'a str> for Pep8Word {
    open spec fn obeys_try_from_spec() -> bool {
        true
    }

    open spec fn try_from_spec(value: &'a str) -> Result<Self, ValueError> {
        word_of_bytes(value.spec_bytes())
    }
}

impl<'a> From<&'a u16> for Pep8Word {
    fn from(value: &'a u16) -> (r: Self) {
        Self::new(*value)
    }
}

impl<'a> vstd::std_specs::convert::FromSpecImpl<&'a u16> for Pep8Word {
    open spec fn obeys_from_spec() -> bool {
        true
    }

    open spec fn from_spec(value: &'a u16) -> Self {
        Pep8Word(*value)
    }
}

impl<'a> TryFrom<&'a char> for Pep8Byte {
    type Error = ValueError;

    fn try_from(value: &'a char) -> (r: Result<Self, ValueError>) {
        Self::from_char(*value)
    }
}

impl<'a> vstd::std_specs::convert::TryFromSpecImpl<&'a char> for Pep8Byte {
    open spec fn obeys_try_from_spec() -> bool {
        true
    }

    open spec fn try_from_spec(value: &'a char) -> Result<Self, ValueError> {
        byte_of_char(*value)
    }
}

impl<'a> TryFrom<&'a String> for Pep8Byte {
    type Error = ValueError;

    fn try_from(value: &'a String) -> (r: Result<Self, ValueError>) {
        Self::from_text(value.as_str())
    }
}

impl<'a> vstd::std_specs::convert::TryFromSpecImpl<&'a String> for Pep8Byte {
    open spec fn obeys_try_from_spec() -> bool {
        true
    }

    open spec fn try_from_spec(value: &'a String) -> Result<Self, ValueError> {
        byte_of_bytes(encode_utf8(value@))
    }
}

impl<'a> From<&'a u16> for Pep8Byte {
    fn from(value: &'a u16) -> (r: Self) {
        Self::from_number(*value)
    }
}

impl<'a> vstd::std_specs::convert::FromSpecImpl<&'a u16> for Pep8Byte {
    open spec fn obeys_from_spec() -> bool {
        true
    }

    open spec fn from_spec(value: &'a u16) -> Self {
        Pep8Byte((*value % 256) as u8)
    }
}

} // verus!
