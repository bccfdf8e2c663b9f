//! Addressing modes, operands, and the symbol table.

use vstd::prelude::*;
use vstd::utf8::encode_utf8;

use crate::lexer::Token;
use crate::text::same_text;
use crate::types::{word_of_bytes, word_of_char, Pep8Word, ValueError};

verus! {

/// What went wrong with an address operand.
#[derive(Debug)]
pub enum Error {
    InvalidAddressTokenType(Token),
    InvalidAddrModeString(String),
    IllegalAddrMode(AddrMode),
    MalformedAddrMode,
    UndefinedSymbol(String),
    InvalidValue(ValueError),
}

/// Where an operand points: a literal value, or a label resolved later.
#[derive(Debug, PartialEq, Eq)]
pub enum AddrLocation {
    Memory(Pep8Word),
    Label(String),
}

/// A literal value as a location, or the reason it is no word.
pub open spec fn memory_of(w: Result<Pep8Word, ValueError>) -> Result<AddrLocation, Error> {
    match w {
        Ok(w) => Ok(AddrLocation::Memory(w)),
        Err(e) => Err(Error::InvalidValue(e)),
    }
}

/// The location that a token stands for.
pub open spec fn location_of(t: Token) -> Result<AddrLocation, Error> {
    match t {
        Token::Char(c) => memory_of(word_of_char(c)),
        Token::String(s) => memory_of(word_of_bytes(encode_utf8(s@))),
        Token::Number(n) => Ok(AddrLocation::Memory(Pep8Word(n))),
        Token::Identifier(s) => Ok(AddrLocation::Label(s)),
        _ => Err(Error::InvalidAddressTokenType(t)),
    }
}

impl AddrLocation {
    pub fn from_token(token: Token) -> (r: Result<Self, Error>)
        ensures
            r == location_of(token),
    {
        match token {
            Token::Char(c) => match Pep8Word::from_char(c) {
                Ok(w) => Ok(Self::Memory(w)),
                Err(e) => Err(Error::InvalidValue(e)),
            },
            Token::String(s) => match Pep8Word::from_text(s.as_str()) {
                Ok(w) => Ok(Self::Memory(w)),
                Err(e) => Err(Error::InvalidValue(e)),
            },
            Token::Number(n) => Ok(Self::Memory(Pep8Word::new(n))),
            Token::Identifier(s) => Ok(Self::Label(s)),
            _ => Err(Error::InvalidAddressTokenType(token)),
        }
    }
}

/// The eight addressing modes.
#[derive(Debug, Clone, Copy, PartialEq, Eq, Structural)]
pub enum AddrMode {
    Immediate,
    Direct,
    Indirect,
    StackRelative,
    StackRelativeDeferred,
    Indexed,
    StackIndexed,
    StackIndexedDeferred,
}

/// The canonical mnemonic of each mode.
pub open spec fn mode_mnemonic(m: AddrMode) -> Seq<char> {
    match m {
        AddrMode::Immediate => "i"@,
        AddrMode::Direct => "d"@,
        AddrMode::Indirect => "n"@,
        AddrMode::StackRelative => "s"@,
        AddrMode::StackRelativeDeferred => "sf"@,
        AddrMode::Indexed => "x"@,
        AddrMode::StackIndexed => "sx"@,
        AddrMode::StackIndexedDeferred => "sxf"@,
    }
}

/// The mode that a mnemonic names, if any.
pub open spec fn parse_mode(s: Seq<char>) -> Option<AddrMode> {
    if s == "i"@ {
        Some(AddrMode::Immediate)
    } else if s == "d"@ {
        Some(AddrMode::Direct)
    } else if s == "n"@ {
        Some(AddrMode::Indirect)
    } else if s == "s"@ {
        Some(AddrMode::StackRelative)
    } else if s == "sf"@ {
        Some(AddrMode::StackRelativeDeferred)
    } else if s == "x"@ {
        Some(AddrMode::Indexed)
    } else if s == "sx"@ {
        Some(AddrMode::StackIndexed)
    } else if s == "sxf"@ {
        Some(AddrMode::StackIndexedDeferred)
    } else {
        None
    }
}

/// The mode that a mode token's text names, or the error that carries the text.
pub open spec fn mode_result(s: String) -> Result<AddrMode, Error> {
    match parse_mode(s@) {
        Some(m) => Ok(m),
        None => Err(Error::InvalidAddrModeString(s)),
    }
}

/// The one-bit code of a mode in a branch instruction; only two modes have one.
pub open spec fn short_code(m: AddrMode) -> Option<u8> {
    match m {
        AddrMode::Immediate => Some(0),
        AddrMode::Indexed => Some(1),
        _ => None,
    }
}

/// The three-bit code of a mode.
pub open spec fn long_code(m: AddrMode) -> u8 {
    match m {
        AddrMode::Immediate => 0,
        AddrMode::Direct => 1,
        AddrMode::Indirect => 2,
        AddrMode::StackRelative => 3,
        AddrMode::StackRelativeDeferred => 4,
        AddrMode::Indexed => 5,
        AddrMode::StackIndexed => 6,
        AddrMode::StackIndexedDeferred => 7,
    }
}

/// Each mode's mnemonic parses back to the mode, and the three-bit codes of two
/// different modes differ.
pub proof fn lemma_mode_codes(m1: AddrMode, m2: AddrMode)
    ensures
        parse_mode(mode_mnemonic(m1)) == Some(m1),
        long_code(m1) < 8,
        m1 != m2 ==> long_code(m1) != long_code(m2),
{
    reveal_strlit("i");
    reveal_strlit("d");
    reveal_strlit("n");
    reveal_strlit("s");
    reveal_strlit("sf");
    reveal_strlit("x");
    reveal_strlit("sx");
    reveal_strlit("sxf");
    assert("i"@[0] == 'i' && "d"@[0] == 'd' && "n"@[0] == 'n' && "s"@[0] == 's');
    assert("sf"@[0] == 's' && "x"@[0] == 'x' && "sx"@[0] == 's' && "sxf"@[0] == 's');
    assert("sf"@[1] == 'f' && "sx"@[1] == 'x' && "sxf"@[1] == 'x');
    assert("i"@.len() == 1 && "d"@.len() == 1 && "n"@.len() == 1 && "s"@.len() == 1);
    assert("sf"@.len() == 2 && "x"@.len() == 1 && "sx"@.len() == 2 && "sxf"@.len() == 3);
    assert("sxf"@[2] == 'f');
}

/// Looks a mode mnemonic up.
fn lookup_mode(s: &str) -> (r: Option<AddrMode>)
    ensures
        r == parse_mode(s@),
{
    if same_text(s, "i") {
        Some(AddrMode::Immediate)
    } else if same_text(s, "d") {
        Some(AddrMode::Direct)
    } else if same_text(s, "n") {
        Some(AddrMode::Indirect)
    } else if same_text(s, "s") {
        Some(AddrMode::StackRelative)
    } else if same_text(s, "sf") {
        Some(AddrMode::StackRelativeDeferred)
    } else if same_text(s, "x") {
        Some(AddrMode::Indexed)
    } else if same_text(s, "sx") {
        Some(AddrMode::StackIndexed)
    } else if same_text(s, "sxf") {
        Some(AddrMode::StackIndexedDeferred)
    } else {
        None
    }
}

/// Parses the text of a mode token.
fn mode_of_string(s: &String) -> (r: Result<AddrMode, Error>)
    ensures
        r == mode_result(*s),
{
    match lookup_mode(s.as_str()) {
        Some(m) => Ok(m),
        None => Err(Error::InvalidAddrModeString(s.clone())),
    }
}

/// Whether a mode is among the given ones.
fn mode_in(m: AddrMode, modes: &[AddrMode]) -> (r: bool)
    ensures
        r == modes@.contains(m),
{
    let mut i: usize = 0;
    while i < modes.len()
        invariant
            0 <= i <= modes@.len(),
            forall|j: int| 0 <= j < i ==> modes@[j] != m,
        decreases modes@.len() - i,
    {
        if modes[i] == m {
            return true;
        }
        i = i + 1;
    }
    false
}

impl AddrMode {
    /// The canonical mnemonic of the mode.
    pub fn mnemonic(&self) -> (r: &'static str)
        ensures
            r@ == mode_mnemonic(*self),
    {
        match self {
            Self::Immediate => "i",
            Self::Direct => "d",
            Self::Indirect => "n",
            Self::StackRelative => "s",
            Self::StackRelativeDeferred => "sf",
            Self::Indexed => "x",
            Self::StackIndexed => "sx",
            Self::StackIndexedDeferred => "sxf",
        }
    }

    pub fn from_str(s: &str) -> (r: Result<Self, Error>)
        ensures
            parse_mode(s@) matches Some(m) ==> r == Ok::<AddrMode, Error>(m),
            parse_mode(s@) is None ==> (r matches Err(Error::InvalidAddrModeString(t)) && t@ == s@),
    {
        match lookup_mode(s) {
            Some(m) => Ok(m),
            None => Err(Error::InvalidAddrModeString(s.to_owned())),
        }
    }

    pub fn as_byte_short(&self) -> (r: Result<u8, Error>)
        ensures
            short_code(*self) matches Some(b) ==> r == Ok::<u8, Error>(b),
            short_code(*self) is None ==> r == Err::<u8, Error>(Error::IllegalAddrMode(*self)),
    {
        match self {
            Self::Immediate => Ok(0),
            Self::Indexed => Ok(1),
            _ => Err(Error::IllegalAddrMode(*self)),
        }
    }

    pub fn as_byte_long(&self) -> (r: u8)
        ensures
            r == long_code(*self),
    {
        match self {
            Self::Immediate => 0b000,
            Self::Direct => 0b001,
            Self::Indirect => 0b010,
            Self::StackRelative => 0b011,
            Self::StackRelativeDeferred => 0b100,
            Self::Indexed => 0b101,
            Self::StackIndexed => 0b110,
            Self::StackIndexedDeferred => 0b111,
        }
    }
}

/// An operand: a location with the mode that qualifies it.
#[derive(Debug, PartialEq, Eq)]
pub struct Address {
    pub location: AddrLocation,
    pub mode: AddrMode,
}

/// A parsed location under a mode.
pub open spec fn with_mode(l: Result<AddrLocation, Error>, m: AddrMode) -> Result<Address, Error> {
    match l {
        Ok(location) => Ok(Address { location, mode: m }),
        Err(e) => Err(e),
    }
}

/// Whether operand tokens have the shape `address , mode`.
pub open spec fn has_mode_suffix(ts: Seq<Token>) -> bool {
    ts.len() == 3 && ts[1] is Comma && ts[2] is Identifier
}

/// The operand of a branch: `address` (immediate) or `address , mode`, where the
/// mode must have a one-bit code.
pub open spec fn short_address(ts: Seq<Token>) -> Result<Address, Error> {
    if ts.len() == 1 {
        with_mode(location_of(ts[0]), AddrMode::Immediate)
    } else if has_mode_suffix(ts) {
        match mode_result(ts[2]->Identifier_0) {
            Err(e) => Err(e),
            Ok(m) => if short_code(m) is Some {
                with_mode(location_of(ts[0]), m)
            } else {
                Err(Error::IllegalAddrMode(m))
            },
        }
    } else {
        Err(Error::MalformedAddrMode)
    }
}

/// The operand `address , mode`, where the mode must be one of `legal`.
pub open spec fn long_address(ts: Seq<Token>, legal: Seq<AddrMode>) -> Result<Address, Error> {
    if has_mode_suffix(ts) {
        match mode_result(ts[2]->Identifier_0) {
            Err(e) => Err(e),
            Ok(m) => if legal.contains(m) {
                with_mode(location_of(ts[0]), m)
            } else {
                Err(Error::IllegalAddrMode(m))
            },
        }
    } else {
        Err(Error::MalformedAddrMode)
    }
}

impl Address {
    pub fn from_tokens_short(tokens: &[Token]) -> (r: Result<Self, Error>)
        ensures
            r == short_address(tokens@),
    {
        if tokens.len() == 1 {
            match AddrLocation::from_token(tokens[0].clone()) {
                Ok(location) => Ok(Address { location, mode: AddrMode::Immediate }),
                Err(e) => Err(e),
            }
        } else if tokens.len() == 3 {
            match (&tokens[1], &tokens[2]) {
                (Token::Comma, Token::Identifier(mode_value)) => {
                    let mode = match mode_of_string(mode_value) {
                        Ok(m) => m,
                        Err(e) => return Err(e),
                    };
                    match mode {
                        AddrMode::Immediate | AddrMode::Indexed => {
                            match AddrLocation::from_token(tokens[0].clone()) {
                                Ok(location) => Ok(Address { location, mode }),
                                Err(e) => Err(e),
                            }
                        },
                        _ => Err(Error::IllegalAddrMode(mode)),
                    }
                },
                _ => Err(Error::MalformedAddrMode),
            }
        } else {
            Err(Error::MalformedAddrMode)
        }
    }

    pub fn from_tokens_long(tokens: &[Token], legal_addressing_modes: &[AddrMode]) -> (r: Result<
        Self,
        Error,
    >)
        ensures
            r == long_address(tokens@, legal_addressing_modes@),
    {
        if tokens.len() == 3 {
            match (&tokens[1], &tokens[2]) {
                (Token::Comma, Token::Identifier(mode_value)) => {
                    let mode = match mode_of_string(mode_value) {
                        Ok(m) => m,
                        Err(e) => return Err(e),
                    };
                    if mode_in(mode, legal_addressing_modes) {
                        match AddrLocation::from_token(tokens[0].clone()) {
                            Ok(location) => Ok(Address { location, mode }),
                            Err(e) => Err(e),
                        }
                    } else {
                        Err(Error::IllegalAddrMode(mode))
                    }
                },
                _ => Err(Error::MalformedAddrMode),
            }
        } else {
            Err(Error::MalformedAddrMode)
        }
    }
}

/// The symbol table: each label name with the address it was given.
pub struct AddressTable {
    entries: Vec<(String, Pep8Word)>,
    contents: Ghost<Map<Seq<char>, u16>>,
}

impl View for AddressTable {
    type V = Map<Seq<char>, u16>;

    closed spec fn view(&self) -> Map<Seq<char>, u16> {
        self.contents@
    }
}

impl AddressTable {
    /// The entries hold each name once, and hold exactly what the view maps.
    pub closed spec fn wf(&self) -> bool {
        &&& forall|i: int, j: int|
            0 <= i < j < self.entries@.len() ==> self.entries@[i].0@ != self.entries@[j].0@
        &&& forall|i: int|
            0 <= i < self.entries@.len() ==> #[trigger] self.contents@.contains_key(
                self.entries@[i].0@,
            ) && self.contents@[self.entries@[i].0@] == self.entries@[i].1.0
        &&& forall|k: Seq<char>|
            #[trigger] self.contents@.contains_key(k) ==> exists|i: int|
                0 <= i < self.entries@.len() && self.entries@[i].0@ == k
    }

    pub fn new() -> (r: Self)
        ensures
            r.wf(),
            r@ == Map::<Seq<char>, u16>::empty(),
    {
        Self { entries: Vec::new(), contents: Ghost(Map::empty()) }
    }

    /// The position of a name in the entries, if it is there.
    fn position(&self, key: &String) -> (r: Option<usize>)
        requires
            self.wf(),
        ensures
            r matches Some(i) ==> i < self.entries@.len() && self.entries@[i as int].0@ == key@,
            r is None ==> !self@.contains_key(key@),
    {
        let mut i: usize = 0;
        while i < self.entries.len()
            invariant
                self.wf(),
                0 <= i <= self.entries@.len(),
                forall|j: int| 0 <= j < i ==> self.entries@[j].0@ != key@,
            decreases self.entries@.len() - i,
        {
            if self.entries[i].0 == *key {
                return Some(i);
            }
            i = i + 1;
        }
        None
    }

    pub fn get(&self, key: &String) -> (r: Option<&Pep8Word>)
        requires
            self.wf(),
        ensures
            self@.contains_key(key@) ==> (r matches Some(w) && w.0 == self@[key@]),
            !self@.contains_key(key@) ==> r is None,
    {
        match self.position(key) {
            Some(i) => Some(&self.entries[i].1),
            None => None,
        }
    }

    /// Binds a name to an address, replacing an earlier binding of it, which is returned.
    pub fn insert(&mut self, key: String, value: Pep8Word) -> (r: Option<Pep8Word>)
        requires
            old(self).wf(),
        ensures
            final(self).wf(),
            final(self)@ == old(self)@.insert(key@, value.0),
            old(self)@.contains_key(key@) ==> r == Some(Pep8Word(old(self)@[key@])),
            !old(self)@.contains_key(key@) ==> r is None,
    {
        let ghost k = key@;
        match self.position(&key) {
            Some(i) => {
                let previous = self.entries[i].1;
                self.entries[i] = (key, value);
                self.contents = Ghost(self.contents@.insert(k, value.0));
                assert forall|k2: Seq<char>| #[trigger]
                    self.contents@.contains_key(k2) implies exists|j: int|
                    0 <= j < self.entries@.len() && self.entries@[j].0@ == k2 by {
                    if k2 != k {
                        let j = choose|j: int|
                            0 <= j < old(self).entries@.len() && old(self).entries@[j].0@ == k2;
                        assert(self.entries@[j].0@ == k2);
                    } else {
                        assert(self.entries@[i as int].0@ == k2);
                    }
                }
                Some(previous)
            },
            None => {
                self.entries.push((key, value));
                self.contents = Ghost(self.contents@.insert(k, value.0));
                assert forall|k2: Seq<char>| #[trigger]
                    self.contents@.contains_key(k2) implies exists|j: int|
                    0 <= j < self.entries@.len() && self.entries@[j].0@ == k2 by {
                    if k2 != k {
                        let j = choose|j: int|
                            0 <= j < old(self).entries@.len() && old(self).entries@[j].0@ == k2;
                        assert(self.entries@[j].0@ == k2);
                    } else {
                        assert(self.entries@[self.entries@.len() - 1].0@ == k2);
                    }
                }
                None
            },
        }
    }

    pub fn resolve(&self, address: &Address) -> (r: Option<Pep8Word>)
        requires
            self.wf(),
        ensures
            r == resolved(self@, address.location),
    {
        match &address.location {
            AddrLocation::Memory(memory_address) => Some(*memory_address),
            AddrLocation::Label(label) => match self.get(label) {
                Some(w) => Some(*w),
                None => None,
            },
        }
    }
}

/// The word a location stands for under a symbol table, if it has one.
pub open spec fn resolved(table: Map<Seq<char>, u16>, l: AddrLocation) -> Option<Pep8Word> {
    match l {
        AddrLocation::Memory(w) => Some(w),
        AddrLocation::Label(name) => if table.contains_key(name@) {
            Some(Pep8Word(table[name@]))
        } else {
            None
        },
    }
}

} // verus!
