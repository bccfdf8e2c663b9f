//! Assembler directives.

use vstd::prelude::*;
use vstd::slice::slice_to_vec;
use vstd::utf8::encode_utf8;

use crate::address::{self, AddressTable};
use crate::instruction::bytes_match;
use crate::lexer::Token;
use crate::text::{same_text, to_upper, upper_of};
use crate::types::{
    byte_of_bytes, byte_of_char, word_bytes, word_of_bytes, word_of_char, Pep8Byte, Pep8Word,
    ValueError,
};

verus! {

/// The arguments that a directive expected and did not get.
#[derive(Debug, Clone, Copy, PartialEq, Eq, Structural)]
pub enum Expected {
    /// One label name.
    Label,
    /// One string literal.
    Text,
    /// One number.
    Number,
    /// One character, number or string.
    Value,
    /// No argument at all.
    Nothing,
}

/// Why a line could not be read as a directive.
#[derive(Debug)]
pub enum Error {
    InvalidArguments(Expected),
    InvalidDotCommand(String),
    /// The line does not start with a directive name.
    MissingDotCommand,
    /// A literal argument does not fit the value it fills.
    InvalidValue(ValueError),
}

/// An assembler directive with its argument.
#[derive(Debug)]
pub enum DotCommand {
    ADDRSS(String),
    ASCII(String),
    BLOCK(usize),
    BYTE(Pep8Byte),
    END,
    WORD(Pep8Word),
}

/// A `.BYTE` argument, or the reason it gives no byte.
pub open spec fn byte_directive(b: Result<Pep8Byte, ValueError>) -> Result<DotCommand, Error> {
    match b {
        Ok(b) => Ok(DotCommand::BYTE(b)),
        Err(e) => Err(Error::InvalidValue(e)),
    }
}

/// A `.WORD` argument, or the reason it gives no word.
pub open spec fn word_directive(w: Result<Pep8Word, ValueError>) -> Result<DotCommand, Error> {
    match w {
        Ok(w) => Ok(DotCommand::WORD(w)),
        Err(e) => Err(Error::InvalidValue(e)),
    }
}

/// What a directive name (upper-case) and its argument tokens make; `None` if
/// no directive has that name.
pub open spec fn decode_directive(m: Seq<char>, args: Seq<Token>) -> Option<Result<DotCommand, Error>> {
    if m == ".ADDRSS"@ {
        Some(
            if args.len() == 1 && args[0] is Identifier {
                Ok(DotCommand::ADDRSS(args[0]->Identifier_0))
            } else {
                Err(Error::InvalidArguments(Expected::Label))
            },
        )
    } else if m == ".ASCII"@ {
        Some(
            if args.len() == 1 && args[0] is String {
                Ok(DotCommand::ASCII(args[0]->String_0))
            } else {
                Err(Error::InvalidArguments(Expected::Text))
            },
        )
    } else if m == ".BLOCK"@ {
        Some(
            if args.len() == 1 && args[0] is Number {
                Ok(DotCommand::BLOCK(args[0]->Number_0 as usize))
            } else {
                Err(Error::InvalidArguments(Expected::Number))
            },
        )
    } else if m == ".BYTE"@ {
        Some(
            if args.len() != 1 {
                Err(Error::InvalidArguments(Expected::Value))
            } else {
                match args[0] {
                    Token::Char(c) => byte_directive(byte_of_char(c)),
                    Token::Number(n) => Ok(DotCommand::BYTE(Pep8Byte((n % 256) as u8))),
                    Token::String(s) => byte_directive(byte_of_bytes(encode_utf8(s@))),
                    _ => Err(Error::InvalidArguments(Expected::Value)),
                }
            },
        )
    } else if m == ".END"@ {
        Some(
            if args.len() == 0 {
                Ok(DotCommand::END)
            } else {
                Err(Error::InvalidArguments(Expected::Nothing))
            },
        )
    } else if m == ".WORD"@ {
        Some(
            if args.len() != 1 {
                Err(Error::InvalidArguments(Expected::Value))
            } else {
                match args[0] {
                    Token::Char(c) => word_directive(word_of_char(c)),
                    Token::Number(n) => Ok(DotCommand::WORD(Pep8Word(n))),
                    Token::String(s) => word_directive(word_of_bytes(encode_utf8(s@))),
                    _ => Err(Error::InvalidArguments(Expected::Value)),
                }
            },
        )
    } else {
        None
    }
}

/// What a directive line makes, its name matched without regard to case.
pub open spec fn parse_directive(ts: Seq<Token>) -> Result<DotCommand, Error> {
    if ts.len() > 0 && ts[0] is DotCommand {
        let name = ts[0]->DotCommand_0;
        match decode_directive(upper_of(name@), ts.drop_first()) {
            Some(x) => x,
            None => Err(Error::InvalidDotCommand(name)),
        }
    } else {
        Err(Error::MissingDotCommand)
    }
}

/// The bytes of a directive under a symbol table.
pub open spec fn encode_directive(d: DotCommand, t: Map<Seq<char>, u16>) -> Result<Seq<u8>, address::Error> {
    match d {
        DotCommand::ADDRSS(label) => if t.contains_key(label@) {
            Ok(word_bytes(t[label@]))
        } else {
            Err(address::Error::UndefinedSymbol(label))
        },
        DotCommand::ASCII(s) => Ok(encode_utf8(s@)),
        DotCommand::BLOCK(n) => Ok(Seq::new(n as nat, |i: int| 0u8)),
        DotCommand::BYTE(b) => Ok(seq![b.0]),
        DotCommand::END => Ok(Seq::empty()),
        DotCommand::WORD(w) => Ok(word_bytes(w.0)),
    }
}

/// The number of bytes a directive emits.
pub open spec fn directive_size(d: DotCommand) -> nat {
    match d {
        DotCommand::ADDRSS(_) => 2,
        DotCommand::ASCII(s) => encode_utf8(s@).len(),
        DotCommand::BLOCK(n) => n as nat,
        DotCommand::BYTE(_) => 1,
        DotCommand::END => 0,
        DotCommand::WORD(_) => 2,
    }
}

/// A vector of `n` zero bytes.
fn zeros(n: usize) -> (r: Vec<u8>)
    ensures
        r@ == Seq::new(n as nat, |i: int| 0u8),
{
    let mut r: Vec<u8> = Vec::new();
    let mut i: usize = 0;
    while i < n
        invariant
            i <= n,
            r@ =~= Seq::new(i as nat, |j: int| 0u8),
        decreases n - i,
    {
        r.push(0);
        i = i + 1;
    }
    r
}

/// The two bytes of a word in a vector.
fn word_vec(w: Pep8Word) -> (r: Vec<u8>)
    ensures
        r@ == word_bytes(w.0),
{
    let b = w.as_bytes();
    let mut r: Vec<u8> = Vec::new();
    r.push(b[0]);
    r.push(b[1]);
    assert(r@ =~= word_bytes(w.0));
    r
}

/// The directive of a `.BYTE` argument token.
fn byte_argument(t: &Token) -> (r: Result<DotCommand, Error>)
    ensures
        t is Char ==> r == byte_directive(byte_of_char(t->Char_0)),
        t is Number ==> r == Ok::<DotCommand, Error>(
            DotCommand::BYTE(Pep8Byte((t->Number_0 % 256) as u8)),
        ),
        t is String ==> r == byte_directive(byte_of_bytes(encode_utf8(t->String_0@))),
        !(t is Char || t is Number || t is String) ==> r == Err::<DotCommand, Error>(
            Error::InvalidArguments(Expected::Value),
        ),
{
    let b = match t {
        Token::Char(c) => Pep8Byte::from_char(*c),
        Token::Number(n) => Ok(Pep8Byte::from_number(*n)),
        Token::String(s) => Pep8Byte::from_text(s.as_str()),
        _ => return Err(Error::InvalidArguments(Expected::Value)),
    };
    match b {
        Ok(b) => Ok(DotCommand::BYTE(b)),
        Err(e) => Err(Error::InvalidValue(e)),
    }
}

/// The directive of a `.WORD` argument token.
fn word_argument(t: &Token) -> (r: Result<DotCommand, Error>)
    ensures
        t is Char ==> r == word_directive(word_of_char(t->Char_0)),
        t is Number ==> r == Ok::<DotCommand, Error>(DotCommand::WORD(Pep8Word(t->Number_0))),
        t is String ==> r == word_directive(word_of_bytes(encode_utf8(t->String_0@))),
        !(t is Char || t is Number || t is String) ==> r == Err::<DotCommand, Error>(
            Error::InvalidArguments(Expected::Value),
        ),
{
    let w = match t {
        Token::Char(c) => Pep8Word::from_char(*c),
        Token::Number(n) => Ok(Pep8Word::new(*n)),
        Token::String(s) => Pep8Word::from_text(s.as_str()),
        _ => return Err(Error::InvalidArguments(Expected::Value)),
    };
    match w {
        Ok(w) => Ok(DotCommand::WORD(w)),
        Err(e) => Err(Error::InvalidValue(e)),
    }
}

impl DotCommand {
    /// Reads a directive line: a directive name, in any case, and its arguments.
    pub fn from_tokens(tokens: &[Token]) -> (r: Result<Self, Error>)
        ensures
            r == parse_directive(tokens@),
    {
        if tokens.len() == 0 {
            return Err(Error::MissingDotCommand);
        }
        match &tokens[0] {
            Token::DotCommand(dotcommand) => {
                let upper = to_upper(dotcommand.as_str());
                let (_, arguments) = tokens.split_at(1);
                assert(arguments@ =~= tokens@.drop_first());
                match Self::from_name(upper.as_str(), arguments) {
                    Some(r) => r,
                    None => Err(Error::InvalidDotCommand(dotcommand.clone())),
                }
            },
            _ => Err(Error::MissingDotCommand),
        }
    }

    /// Builds the directive of an upper-case name from its argument tokens;
    /// `None` if no directive has that name.
    pub fn from_name(name: &str, arguments: &[Token]) -> (r: Option<Result<Self, Error>>)
        ensures
            r == decode_directive(name@, arguments@),
    {
        let one = arguments.len() == 1;
        if same_text(name, ".ADDRSS") {
            if one {
                if let Token::Identifier(label) = &arguments[0] {
                    return Some(Ok(Self::ADDRSS(label.clone())));
                }
            }
            Some(Err(Error::InvalidArguments(Expected::Label)))
        } else if same_text(name, ".ASCII") {
            if one {
                if let Token::String(value) = &arguments[0] {
                    return Some(Ok(Self::ASCII(value.clone())));
                }
            }
            Some(Err(Error::InvalidArguments(Expected::Text)))
        } else if same_text(name, ".BLOCK") {
            if one {
                if let Token::Number(value) = &arguments[0] {
                    return Some(Ok(Self::BLOCK(*value as usize)));
                }
            }
            Some(Err(Error::InvalidArguments(Expected::Number)))
        } else if same_text(name, ".BYTE") {
            if one {
                Some(byte_argument(&arguments[0]))
            } else {
                Some(Err(Error::InvalidArguments(Expected::Value)))
            }
        } else if same_text(name, ".END") {
            if arguments.len() == 0 {
                Some(Ok(Self::END))
            } else {
                Some(Err(Error::InvalidArguments(Expected::Nothing)))
            }
        } else if same_text(name, ".WORD") {
            if one {
                Some(word_argument(&arguments[0]))
            } else {
                Some(Err(Error::InvalidArguments(Expected::Value)))
            }
        } else {
            None
        }
    }

    /// The bytes of the directive, a label argument resolved through the symbol table.
    pub fn as_bytes(&self, address_table: &AddressTable) -> (r: Result<Vec<u8>, address::Error>)
        requires
            address_table.wf(),
        ensures
            bytes_match(r, encode_directive(*self, address_table@)),
    {
        match self {
            Self::ADDRSS(value) => match address_table.get(value) {
                Some(word) => Ok(word_vec(*word)),
                None => Err(address::Error::UndefinedSymbol(value.clone())),
            },
            Self::ASCII(value) => Ok(slice_to_vec(value.as_str().as_bytes())),
            Self::BLOCK(size) => Ok(zeros(*size)),
            Self::BYTE(value) => {
                let mut r: Vec<u8> = Vec::new();
                r.push(value.as_byte());
                assert(r@ =~= seq![value.0]);
                Ok(r)
            },
            Self::END => {
                let r: Vec<u8> = Vec::new();
                assert(r@ =~= Seq::<u8>::empty());
                Ok(r)
            },
            Self::WORD(value) => Ok(word_vec(*value)),
        }
    }

    pub fn byte_size(&self) -> (r: usize)
        ensures
            r == directive_size(*self),
    {
        match self {
            Self::ADDRSS(_) => 2,
            Self::ASCII(s) => s.as_str().as_bytes().len(),
            Self::BLOCK(size) => *size,
            Self::BYTE(_) => 1,
            Self::END => 0,
            Self::WORD(_) => 2,
        }
    }
}

} // verus!
