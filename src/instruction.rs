//! Machine instructions: their mnemonics, legal modes and encoding.

use vstd::prelude::*;

use crate::address::{
    self, long_address, long_code, short_address, short_code, AddrLocation, AddrMode, Address,
    AddressTable,
};
use crate::lexer::Token;
use crate::register::{register_bit, Register};
use crate::text::{same_text, to_upper, upper_of};
use crate::types::{word_bytes, Pep8Byte, Pep8Word};

verus! {

/// One machine instruction with its operands.
#[allow(non_camel_case_types)]
#[derive(Debug)]
pub enum Instruction {
    STOP,
    RETTR,
    MOVSPA,
    MOVFLGA,
    BR(Address),
    BRLE(Address),
    BRLT(Address),
    BREQ(Address),
    BRNE(Address),
    BRGE(Address),
    BRGT(Address),
    BRV(Address),
    BRC(Address),
    CALL(Address),
    NOTr(Register),
    NEGr(Register),
    ASLr(Register),
    ASRr(Register),
    ROLr(Register),
    RORr(Register),
    NOPn(Pep8Byte),
    NOP(Address),
    DECI(Address),
    DECO(Address),
    STRO(Address),
    CHARI(Address),
    CHARO(Address),
    RETn(Pep8Byte),
    ADDSP(Address),
    SUBSP(Address),
    ADDr(Register, Address),
    SUBr(Register, Address),
    ANDr(Register, Address),
    ORr(Register, Address),
    CPr(Register, Address),
    LDr(Register, Address),
    LDBYTEr(Register, Address),
    STr(Register, Address),
    STBYTEr(Register, Address),
}

/// Why a line could not be read as an instruction.
#[derive(Debug)]
pub enum Error {
    /// The line does not start with an identifier.
    MissingInstruction,
    /// No instruction has this mnemonic.
    InvalidInstruction(String),
    /// The operand is malformed or its mode is not allowed.
    Address(address::Error),
}

/// A parsed operand made into an instruction.
pub open spec fn lift(
    a: Result<Address, address::Error>,
    f: spec_fn(Address) -> Instruction,
) -> Result<Instruction, Error> {
    match a {
        Ok(a) => Ok(f(a)),
        Err(e) => Err(Error::Address(e)),
    }
}

/// All eight modes.
pub open spec fn every_mode() -> Seq<AddrMode> {
    seq![
        AddrMode::Immediate,
        AddrMode::Direct,
        AddrMode::Indirect,
        AddrMode::StackRelative,
        AddrMode::StackRelativeDeferred,
        AddrMode::Indexed,
        AddrMode::StackIndexed,
        AddrMode::StackIndexedDeferred,
    ]
}

/// Every mode but immediate: for instructions that write to their operand.
pub open spec fn without_immediate() -> Seq<AddrMode> {
    seq![
        AddrMode::Direct,
        AddrMode::Indirect,
        AddrMode::StackRelative,
        AddrMode::StackRelativeDeferred,
        AddrMode::Indexed,
        AddrMode::StackIndexed,
        AddrMode::StackIndexedDeferred,
    ]
}

/// The modes in which a string can be addressed for output.
pub open spec fn string_output() -> Seq<AddrMode> {
    seq![AddrMode::Direct, AddrMode::Indirect, AddrMode::StackRelativeDeferred]
}

/// Immediate mode alone.
pub open spec fn immediate_only() -> Seq<AddrMode> {
    seq![AddrMode::Immediate]
}

fn every_mode_list() -> (r: [AddrMode; 8])
    ensures
        r@ == every_mode(),
{
    let r = [
        AddrMode::Immediate,
        AddrMode::Direct,
        AddrMode::Indirect,
        AddrMode::StackRelative,
        AddrMode::StackRelativeDeferred,
        AddrMode::Indexed,
        AddrMode::StackIndexed,
        AddrMode::StackIndexedDeferred,
    ];
    assert(r@ =~= every_mode());
    r
}

fn without_immediate_list() -> (r: [AddrMode; 7])
    ensures
        r@ == without_immediate(),
{
    let r = [
        AddrMode::Direct,
        AddrMode::Indirect,
        AddrMode::StackRelative,
        AddrMode::StackRelativeDeferred,
        AddrMode::Indexed,
        AddrMode::StackIndexed,
        AddrMode::StackIndexedDeferred,
    ];
    assert(r@ =~= without_immediate());
    r
}

fn string_output_list() -> (r: [AddrMode; 3])
    ensures
        r@ == string_output(),
{
    let r = [AddrMode::Direct, AddrMode::Indirect, AddrMode::StackRelativeDeferred];
    assert(r@ =~= string_output());
    r
}

fn immediate_only_list() -> (r: [AddrMode; 1])
    ensures
        r@ == immediate_only(),
{
    let r = [AddrMode::Immediate];
    assert(r@ =~= immediate_only());
    r
}

/// The instructions that a mnemonic alone determines.
pub open spec fn decode_plain(m: Seq<char>) -> Option<Instruction> {
    if m == "STOP"@ {
        Some(Instruction::STOP)
    } else if m == "RETTR"@ {
        Some(Instruction::RETTR)
    } else if m == "MOVSPA"@ {
        Some(Instruction::MOVSPA)
    } else if m == "MOVFLGA"@ {
        Some(Instruction::MOVFLGA)
    } else if m == "NOTA"@ {
        Some(Instruction::NOTr(Register::Accumulator))
    } else if m == "NOTX"@ {
        Some(Instruction::NOTr(Register::IndexRegister))
    } else if m == "NEGA"@ {
        Some(Instruction::NEGr(Register::Accumulator))
    } else if m == "NEGX"@ {
        Some(Instruction::NEGr(Register::IndexRegister))
    } else if m == "ASLA"@ {
        Some(Instruction::ASLr(Register::Accumulator))
    } else if m == "ASLX"@ {
        Some(Instruction::ASLr(Register::IndexRegister))
    } else if m == "ASRA"@ {
        Some(Instruction::ASRr(Register::Accumulator))
    } else if m == "ASRX"@ {
        Some(Instruction::ASRr(Register::IndexRegister))
    } else if m == "ROLA"@ {
        Some(Instruction::ROLr(Register::Accumulator))
    } else if m == "ROLX"@ {
        Some(Instruction::ROLr(Register::IndexRegister))
    } else if m == "RORA"@ {
        Some(Instruction::RORr(Register::Accumulator))
    } else if m == "RORX"@ {
        Some(Instruction::RORr(Register::IndexRegister))
    } else if m == "NOP0"@ {
        Some(Instruction::NOPn(Pep8Byte(0)))
    } else if m == "NOP1"@ {
        Some(Instruction::NOPn(Pep8Byte(1)))
    } else if m == "NOP2"@ {
        Some(Instruction::NOPn(Pep8Byte(2)))
    } else if m == "NOP3"@ {
        Some(Instruction::NOPn(Pep8Byte(3)))
    } else if m == "RET0"@ {
        Some(Instruction::RETn(Pep8Byte(0)))
    } else if m == "RET1"@ {
        Some(Instruction::RETn(Pep8Byte(1)))
    } else if m == "RET2"@ {
        Some(Instruction::RETn(Pep8Byte(2)))
    } else if m == "RET3"@ {
        Some(Instruction::RETn(Pep8Byte(3)))
    } else if m == "RET4"@ {
        Some(Instruction::RETn(Pep8Byte(4)))
    } else if m == "RET5"@ {
        Some(Instruction::RETn(Pep8Byte(5)))
    } else if m == "RET6"@ {
        Some(Instruction::RETn(Pep8Byte(6)))
    } else if m == "RET7"@ {
        Some(Instruction::RETn(Pep8Byte(7)))
    } else {
        None
    }
}

/// The branches: a mnemonic with an operand in short form.
pub open spec fn decode_branch(m: Seq<char>, ops: Seq<Token>) -> Option<Result<Instruction, Error>> {
    if m == "BR"@ {
        Some(lift(short_address(ops), |a: Address| Instruction::BR(a)))
    } else if m == "BRLE"@ {
        Some(lift(short_address(ops), |a: Address| Instruction::BRLE(a)))
    } else if m == "BRLT"@ {
        Some(lift(short_address(ops), |a: Address| Instruction::BRLT(a)))
    } else if m == "BREQ"@ {
        Some(lift(short_address(ops), |a: Address| Instruction::BREQ(a)))
    } else if m == "BRNE"@ {
        Some(lift(short_address(ops), |a: Address| Instruction::BRNE(a)))
    } else if m == "BRGE"@ {
        Some(lift(short_address(ops), |a: Address| Instruction::BRGE(a)))
    } else if m == "BRGT"@ {
        Some(lift(short_address(ops), |a: Address| Instruction::BRGT(a)))
    } else if m == "BRV"@ {
        Some(lift(short_address(ops), |a: Address| Instruction::BRV(a)))
    } else if m == "BRC"@ {
        Some(lift(short_address(ops), |a: Address| Instruction::BRC(a)))
    } else if m == "CALL"@ {
        Some(lift(short_address(ops), |a: Address| Instruction::CALL(a)))
    } else {
        None
    }
}

/// The instructions with an operand in long form and no register.
pub open spec fn decode_unary(m: Seq<char>, ops: Seq<Token>) -> Option<Result<Instruction, Error>> {
    if m == "NOP"@ {
        Some(lift(long_address(ops, immediate_only()), |a: Address| Instruction::NOP(a)))
    } else if m == "DECI"@ {
        Some(lift(long_address(ops, without_immediate()), |a: Address| Instruction::DECI(a)))
    } else if m == "DECO"@ {
        Some(lift(long_address(ops, every_mode()), |a: Address| Instruction::DECO(a)))
    } else if m == "STRO"@ {
        Some(lift(long_address(ops, string_output()), |a: Address| Instruction::STRO(a)))
    } else if m == "CHARI"@ {
        Some(lift(long_address(ops, without_immediate()), |a: Address| Instruction::CHARI(a)))
    } else if m == "CHARO"@ {
        Some(lift(long_address(ops, every_mode()), |a: Address| Instruction::CHARO(a)))
    } else if m == "ADDSP"@ {
        Some(lift(long_address(ops, every_mode()), |a: Address| Instruction::ADDSP(a)))
    } else if m == "SUBSP"@ {
        Some(lift(long_address(ops, every_mode()), |a: Address| Instruction::SUBSP(a)))
    } else {
        None
    }
}

/// The instructions with a register and an operand in long form.
pub open spec fn decode_register(m: Seq<char>, ops: Seq<Token>) -> Option<Result<Instruction, Error>> {
    if m == "ADDA"@ {
        Some(lift(long_address(ops, every_mode()), |a: Address| Instruction::ADDr(Register::Accumulator, a)))
    } else if m == "ADDX"@ {
        Some(lift(long_address(ops, every_mode()), |a: Address| Instruction::ADDr(Register::IndexRegister, a)))
    } else if m == "SUBA"@ {
        Some(lift(long_address(ops, every_mode()), |a: Address| Instruction::SUBr(Register::Accumulator, a)))
    } else if m == "SUBX"@ {
        Some(lift(long_address(ops, every_mode()), |a: Address| Instruction::SUBr(Register::IndexRegister, a)))
    } else if m == "ANDA"@ {
        Some(lift(long_address(ops, every_mode()), |a: Address| Instruction::ANDr(Register::Accumulator, a)))
    } else if m == "ANDX"@ {
        Some(lift(long_address(ops, every_mode()), |a: Address| Instruction::ANDr(Register::IndexRegister, a)))
    } else if m == "ORA"@ {
        Some(lift(long_address(ops, every_mode()), |a: Address| Instruction::ORr(Register::Accumulator, a)))
    } else if m == "ORX"@ {
        Some(lift(long_address(ops, every_mode()), |a: Address| Instruction::ORr(Register::IndexRegister, a)))
    } else if m == "CPA"@ {
        Some(lift(long_address(ops, every_mode()), |a: Address| Instruction::CPr(Register::Accumulator, a)))
    } else if m == "CPX"@ {
        Some(lift(long_address(ops, every_mode()), |a: Address| Instruction::CPr(Register::IndexRegister, a)))
    } else if m == "LDA"@ {
        Some(lift(long_address(ops, every_mode()), |a: Address| Instruction::LDr(Register::Accumulator, a)))
    } else if m == "LDX"@ {
        Some(lift(long_address(ops, every_mode()), |a: Address| Instruction::LDr(Register::IndexRegister, a)))
    } else if m == "LDBYTEA"@ {
        Some(lift(long_address(ops, every_mode()), |a: Address| Instruction::LDBYTEr(Register::Accumulator, a)))
    } else if m == "LDBYTEX"@ {
        Some(lift(long_address(ops, every_mode()), |a: Address| Instruction::LDBYTEr(Register::IndexRegister, a)))
    } else if m == "STA"@ {
        Some(lift(long_address(ops, without_immediate()), |a: Address| Instruction::STr(Register::Accumulator, a)))
    } else if m == "STX"@ {
        Some(lift(long_address(ops, without_immediate()), |a: Address| Instruction::STr(Register::IndexRegister, a)))
    } else if m == "STBYTEA"@ {
        Some(lift(long_address(ops, without_immediate()), |a: Address| Instruction::STBYTEr(Register::Accumulator, a)))
    } else if m == "STBYTEX"@ {
        Some(lift(long_address(ops, without_immediate()), |a: Address| Instruction::STBYTEr(Register::IndexRegister, a)))
    } else {
        None
    }
}
/// What a mnemonic (upper-case) and its operand tokens make; `None` if no
/// instruction has that mnemonic.
pub open spec fn decode_instruction(m: Seq<char>, ops: Seq<Token>) -> Option<Result<Instruction, Error>> {
    if let Some(i) = decode_plain(m) {
        Some(Ok(i))
    } else if decode_branch(m, ops) is Some {
        decode_branch(m, ops)
    } else if decode_unary(m, ops) is Some {
        decode_unary(m, ops)
    } else {
        decode_register(m, ops)
    }
}

/// What an instruction line makes, its mnemonic matched without regard to case.
pub open spec fn parse_instruction(ts: Seq<Token>) -> Result<Instruction, Error> {
    if ts.len() > 0 && ts[0] is Identifier {
        let name = ts[0]->Identifier_0;
        match decode_instruction(upper_of(name@), ts.drop_first()) {
            Some(x) => x,
            None => Err(Error::InvalidInstruction(name)),
        }
    } else {
        Err(Error::MissingInstruction)
    }
}

/// A parsed instruction's count, if it has one, fits its bit field.
pub proof fn lemma_decoded_counts_fit(ts: Seq<Token>)
    ensures
        parse_instruction(ts) matches Ok(i) ==> counts_fit(i),
{
}

/// The base specifier of each instruction, before mode, register or count bits.
pub open spec fn specifier(i: Instruction) -> u8 {
    match i {
        Instruction::STOP => 0x00,
        Instruction::RETTR => 0x01,
        Instruction::MOVSPA => 0x02,
        Instruction::MOVFLGA => 0x03,
        Instruction::BR(..) => 0x04,
        Instruction::BRLE(..) => 0x06,
        Instruction::BRLT(..) => 0x08,
        Instruction::BREQ(..) => 0x0A,
        Instruction::BRNE(..) => 0x0C,
        Instruction::BRGE(..) => 0x0E,
        Instruction::BRGT(..) => 0x10,
        Instruction::BRV(..) => 0x12,
        Instruction::BRC(..) => 0x14,
        Instruction::CALL(..) => 0x16,
        Instruction::NOTr(..) => 0x18,
        Instruction::NEGr(..) => 0x1A,
        Instruction::ASLr(..) => 0x1C,
        Instruction::ASRr(..) => 0x1E,
        Instruction::ROLr(..) => 0x20,
        Instruction::RORr(..) => 0x22,
        Instruction::NOPn(..) => 0x24,
        Instruction::NOP(..) => 0x28,
        Instruction::DECI(..) => 0x30,
        Instruction::DECO(..) => 0x38,
        Instruction::STRO(..) => 0x40,
        Instruction::CHARI(..) => 0x48,
        Instruction::CHARO(..) => 0x50,
        Instruction::RETn(..) => 0x58,
        Instruction::ADDSP(..) => 0x60,
        Instruction::SUBSP(..) => 0x68,
        Instruction::ADDr(..) => 0x70,
        Instruction::SUBr(..) => 0x80,
        Instruction::ANDr(..) => 0x90,
        Instruction::ORr(..) => 0xA0,
        Instruction::CPr(..) => 0xB0,
        Instruction::LDr(..) => 0xC0,
        Instruction::LDBYTEr(..) => 0xD0,
        Instruction::STr(..) => 0xE0,
        Instruction::STBYTEr(..) => 0xF0,
    }
}

/// The operand of a branch instruction.
pub open spec fn branch_operand(i: Instruction) -> Option<Address> {
    match i {
        Instruction::BR(a) => Some(a),
        Instruction::BRLE(a) => Some(a),
        Instruction::BRLT(a) => Some(a),
        Instruction::BREQ(a) => Some(a),
        Instruction::BRNE(a) => Some(a),
        Instruction::BRGE(a) => Some(a),
        Instruction::BRGT(a) => Some(a),
        Instruction::BRV(a) => Some(a),
        Instruction::BRC(a) => Some(a),
        Instruction::CALL(a) => Some(a),
        _ => None,
    }
}

/// The operand of an instruction with a long-form operand and no register.
pub open spec fn unary_operand(i: Instruction) -> Option<Address> {
    match i {
        Instruction::NOP(a) => Some(a),
        Instruction::DECI(a) => Some(a),
        Instruction::DECO(a) => Some(a),
        Instruction::STRO(a) => Some(a),
        Instruction::CHARI(a) => Some(a),
        Instruction::CHARO(a) => Some(a),
        Instruction::ADDSP(a) => Some(a),
        Instruction::SUBSP(a) => Some(a),
        _ => None,
    }
}

/// The register and operand of an instruction that has both.
pub open spec fn register_operand(i: Instruction) -> Option<(Register, Address)> {
    match i {
        Instruction::ADDr(r, a) => Some((r, a)),
        Instruction::SUBr(r, a) => Some((r, a)),
        Instruction::ANDr(r, a) => Some((r, a)),
        Instruction::ORr(r, a) => Some((r, a)),
        Instruction::CPr(r, a) => Some((r, a)),
        Instruction::LDr(r, a) => Some((r, a)),
        Instruction::LDBYTEr(r, a) => Some((r, a)),
        Instruction::STr(r, a) => Some((r, a)),
        Instruction::STBYTEr(r, a) => Some((r, a)),
        _ => None,
    }
}

/// The register of a unary register instruction.
pub open spec fn unary_register(i: Instruction) -> Option<Register> {
    match i {
        Instruction::NOTr(r) => Some(r),
        Instruction::NEGr(r) => Some(r),
        Instruction::ASLr(r) => Some(r),
        Instruction::ASRr(r) => Some(r),
        Instruction::ROLr(r) => Some(r),
        Instruction::RORr(r) => Some(r),
        _ => None,
    }
}

/// The encoded size of an instruction: three bytes with an operand, one without.
pub open spec fn instruction_size(i: Instruction) -> nat {
    if branch_operand(i) is Some || unary_operand(i) is Some || register_operand(i) is Some {
        3
    } else {
        1
    }
}

/// Whether the count of a `NOPn` or `RETn` fits its bit field (two and three bits).
pub open spec fn counts_fit(i: Instruction) -> bool {
    match i {
        Instruction::NOPn(n) => n.0 < 4,
        Instruction::RETn(n) => n.0 < 8,
        _ => true,
    }
}

/// The word an operand stands for under a symbol table, or the label that is missing.
pub open spec fn operand_word(t: Map<Seq<char>, u16>, a: Address) -> Result<Pep8Word, address::Error> {
    match a.location {
        AddrLocation::Memory(w) => Ok(w),
        AddrLocation::Label(name) => if t.contains_key(name@) {
            Ok(Pep8Word(t[name@]))
        } else {
            Err(address::Error::UndefinedSymbol(name))
        },
    }
}

/// A specifier byte followed by the operand's word, once the operand resolves.
pub open spec fn with_operand(
    t: Map<Seq<char>, u16>,
    a: Address,
    first: u8,
) -> Result<Seq<u8>, address::Error> {
    match operand_word(t, a) {
        Ok(w) => Ok(seq![first] + word_bytes(w.0)),
        Err(e) => Err(e),
    }
}

/// The bytes of a branch: the specifier with the one-bit mode code, then the word.
pub open spec fn branch_encoding(
    t: Map<Seq<char>, u16>,
    a: Address,
    base: u8,
) -> Result<Seq<u8>, address::Error> {
    match operand_word(t, a) {
        Err(e) => Err(e),
        Ok(w) => match short_code(a.mode) {
            Some(c) => Ok(seq![(base + c) as u8] + word_bytes(w.0)),
            None => Err(address::Error::IllegalAddrMode(a.mode)),
        },
    }
}

/// The bytes of an instruction under a symbol table.
pub open spec fn encode_instruction(i: Instruction, t: Map<Seq<char>, u16>) -> Result<Seq<u8>, address::Error> {
    let base = specifier(i);
    match i {
        Instruction::BR(a) | Instruction::BRLE(a) | Instruction::BRLT(a) | Instruction::BREQ(a)
        | Instruction::BRNE(a) | Instruction::BRGE(a) | Instruction::BRGT(a) | Instruction::BRV(a)
        | Instruction::BRC(a) | Instruction::CALL(a) => branch_encoding(t, a, base),
        Instruction::NOP(a) | Instruction::DECI(a) | Instruction::DECO(a) | Instruction::STRO(a)
        | Instruction::CHARI(a) | Instruction::CHARO(a) | Instruction::ADDSP(a)
        | Instruction::SUBSP(a) => with_operand(t, a, (base + long_code(a.mode)) as u8),
        Instruction::ADDr(r, a) | Instruction::SUBr(r, a) | Instruction::ANDr(r, a)
        | Instruction::ORr(r, a) | Instruction::CPr(r, a) | Instruction::LDr(r, a)
        | Instruction::LDBYTEr(r, a) | Instruction::STr(r, a) | Instruction::STBYTEr(r, a) => {
            with_operand(t, a, (base + 8 * register_bit(r) + long_code(a.mode)) as u8)
        },
        Instruction::NOTr(r) | Instruction::NEGr(r) | Instruction::ASLr(r) | Instruction::ASRr(r)
        | Instruction::ROLr(r) | Instruction::RORr(r) => Ok(seq![(base + register_bit(r)) as u8]),
        Instruction::NOPn(n) | Instruction::RETn(n) => Ok(seq![(base + n.0) as u8]),
        _ => Ok(seq![base]),
    }
}

/// Whether a vector holds what an encoding gives.
pub open spec fn bytes_match(
    r: Result<Vec<u8>, address::Error>,
    e: Result<Seq<u8>, address::Error>,
) -> bool {
    match e {
        Ok(b) => r matches Ok(v) && v@ == b,
        Err(x) => r matches Err(y) && x == y,
    }
}

/// The word of an operand, or the undefined-symbol error that names its label.
fn operand_of(table: &AddressTable, a: &Address) -> (r: Result<Pep8Word, address::Error>)
    requires
        table.wf(),
    ensures
        r == operand_word(table@, *a),
{
    match &a.location {
        AddrLocation::Memory(w) => Ok(*w),
        AddrLocation::Label(name) => match table.get(name) {
            Some(w) => Ok(*w),
            None => Err(address::Error::UndefinedSymbol(name.clone())),
        },
    }
}

/// A specifier byte followed by the two bytes of a word.
fn three_bytes(first: u8, w: Pep8Word) -> (r: Vec<u8>)
    ensures
        r@ == seq![first] + word_bytes(w.0),
{
    let b = w.as_bytes();
    let mut r: Vec<u8> = Vec::new();
    r.push(first);
    r.push(b[0]);
    r.push(b[1]);
    assert(r@ =~= seq![first] + word_bytes(w.0));
    r
}

/// Encodes a branch whose specifier is `base`.
fn branch_bytes(table: &AddressTable, a: &Address, base: u8) -> (r: Result<Vec<u8>, address::Error>)
    requires
        table.wf(),
        base <= 0x16,
    ensures
        bytes_match(r, branch_encoding(table@, *a, base)),
{
    let word = match operand_of(table, a) {
        Ok(w) => w,
        Err(e) => return Err(e),
    };
    let code = match a.mode.as_byte_short() {
        Ok(c) => c,
        Err(e) => return Err(e),
    };
    Ok(three_bytes(base + code, word))
}

/// Encodes an instruction with a long-form operand whose first byte is `first`.
fn operand_bytes(table: &AddressTable, a: &Address, first: u8) -> (r: Result<
    Vec<u8>,
    address::Error,
>)
    requires
        table.wf(),
    ensures
        bytes_match(r, with_operand(table@, *a, first)),
{
    match operand_of(table, a) {
        Ok(word) => Ok(three_bytes(first, word)),
        Err(e) => Err(e),
    }
}

/// A single byte.
fn one_byte(b: u8) -> (r: Vec<u8>)
    ensures
        r@ == seq![b],
{
    let mut r: Vec<u8> = Vec::new();
    r.push(b);
    assert(r@ =~= seq![b]);
    r
}

/// Looks up the instructions that a mnemonic alone determines.
fn plain_of(m: &str) -> (r: Option<Instruction>)
    ensures
        r == decode_plain(m@),
{
    if same_text(m, "STOP") {
        Some(Instruction::STOP)
    } else if same_text(m, "RETTR") {
        Some(Instruction::RETTR)
    } else if same_text(m, "MOVSPA") {
        Some(Instruction::MOVSPA)
    } else if same_text(m, "MOVFLGA") {
        Some(Instruction::MOVFLGA)
    } else if same_text(m, "NOTA") {
        Some(Instruction::NOTr(Register::Accumulator))
    } else if same_text(m, "NOTX") {
        Some(Instruction::NOTr(Register::IndexRegister))
    } else if same_text(m, "NEGA") {
        Some(Instruction::NEGr(Register::Accumulator))
    } else if same_text(m, "NEGX") {
        Some(Instruction::NEGr(Register::IndexRegister))
    } else if same_text(m, "ASLA") {
        Some(Instruction::ASLr(Register::Accumulator))
    } else if same_text(m, "ASLX") {
        Some(Instruction::ASLr(Register::IndexRegister))
    } else if same_text(m, "ASRA") {
        Some(Instruction::ASRr(Register::Accumulator))
    } else if same_text(m, "ASRX") {
        Some(Instruction::ASRr(Register::IndexRegister))
    } else if same_text(m, "ROLA") {
        Some(Instruction::ROLr(Register::Accumulator))
    } else if same_text(m, "ROLX") {
        Some(Instruction::ROLr(Register::IndexRegister))
    } else if same_text(m, "RORA") {
        Some(Instruction::RORr(Register::Accumulator))
    } else if same_text(m, "RORX") {
        Some(Instruction::RORr(Register::IndexRegister))
    } else if same_text(m, "NOP0") {
        Some(Instruction::NOPn(Pep8Byte::new(0)))
    } else if same_text(m, "NOP1") {
        Some(Instruction::NOPn(Pep8Byte::new(1)))
    } else if same_text(m, "NOP2") {
        Some(Instruction::NOPn(Pep8Byte::new(2)))
    } else if same_text(m, "NOP3") {
        Some(Instruction::NOPn(Pep8Byte::new(3)))
    } else if same_text(m, "RET0") {
        Some(Instruction::RETn(Pep8Byte::new(0)))
    } else if same_text(m, "RET1") {
        Some(Instruction::RETn(Pep8Byte::new(1)))
    } else if same_text(m, "RET2") {
        Some(Instruction::RETn(Pep8Byte::new(2)))
    } else if same_text(m, "RET3") {
        Some(Instruction::RETn(Pep8Byte::new(3)))
    } else if same_text(m, "RET4") {
        Some(Instruction::RETn(Pep8Byte::new(4)))
    } else if same_text(m, "RET5") {
        Some(Instruction::RETn(Pep8Byte::new(5)))
    } else if same_text(m, "RET6") {
        Some(Instruction::RETn(Pep8Byte::new(6)))
    } else if same_text(m, "RET7") {
        Some(Instruction::RETn(Pep8Byte::new(7)))
    } else {
        None
    }
}

/// Looks up a branch mnemonic and parses its operand.
fn branch_of(m: &str, ops: &[Token]) -> (r: Option<Result<Instruction, Error>>)
    ensures
        r == decode_branch(m@, ops@),
{
    if same_text(m, "BR") {
        Some(
            match Address::from_tokens_short(ops) {
                Ok(a) => Ok(Instruction::BR(a)),
                Err(e) => Err(Error::Address(e)),
            },
        )
    } else if same_text(m, "BRLE") {
        Some(
            match Address::from_tokens_short(ops) {
                Ok(a) => Ok(Instruction::BRLE(a)),
                Err(e) => Err(Error::Address(e)),
            },
        )
    } else if same_text(m, "BRLT") {
        Some(
            match Address::from_tokens_short(ops) {
                Ok(a) => Ok(Instruction::BRLT(a)),
                Err(e) => Err(Error::Address(e)),
            },
        )
    } else if same_text(m, "BREQ") {
        Some(
            match Address::from_tokens_short(ops) {
                Ok(a) => Ok(Instruction::BREQ(a)),
                Err(e) => Err(Error::Address(e)),
            },
        )
    } else if same_text(m, "BRNE") {
        Some(
            match Address::from_tokens_short(ops) {
                Ok(a) => Ok(Instruction::BRNE(a)),
                Err(e) => Err(Error::Address(e)),
            },
        )
    } else if same_text(m, "BRGE") {
        Some(
            match Address::from_tokens_short(ops) {
                Ok(a) => Ok(Instruction::BRGE(a)),
                Err(e) => Err(Error::Address(e)),
            },
        )
    } else if same_text(m, "BRGT") {
        Some(
            match Address::from_tokens_short(ops) {
                Ok(a) => Ok(Instruction::BRGT(a)),
                Err(e) => Err(Error::Address(e)),
            },
        )
    } else if same_text(m, "BRV") {
        Some(
            match Address::from_tokens_short(ops) {
                Ok(a) => Ok(Instruction::BRV(a)),
                Err(e) => Err(Error::Address(e)),
            },
        )
    } else if same_text(m, "BRC") {
        Some(
            match Address::from_tokens_short(ops) {
                Ok(a) => Ok(Instruction::BRC(a)),
                Err(e) => Err(Error::Address(e)),
            },
        )
    } else if same_text(m, "CALL") {
        Some(
            match Address::from_tokens_short(ops) {
                Ok(a) => Ok(Instruction::CALL(a)),
                Err(e) => Err(Error::Address(e)),
            },
        )
    } else {
        None
    }
}

/// Looks up a mnemonic of an instruction with an operand and no register.
fn unary_of(m: &str, ops: &[Token]) -> (r: Option<Result<Instruction, Error>>)
    ensures
        r == decode_unary(m@, ops@),
{
    if same_text(m, "NOP") {
        Some(
            match Address::from_tokens_long(ops, &immediate_only_list()) {
                Ok(a) => Ok(Instruction::NOP(a)),
                Err(e) => Err(Error::Address(e)),
            },
        )
    } else if same_text(m, "DECI") {
        Some(
            match Address::from_tokens_long(ops, &without_immediate_list()) {
                Ok(a) => Ok(Instruction::DECI(a)),
                Err(e) => Err(Error::Address(e)),
            },
        )
    } else if same_text(m, "DECO") {
        Some(
            match Address::from_tokens_long(ops, &every_mode_list()) {
                Ok(a) => Ok(Instruction::DECO(a)),
                Err(e) => Err(Error::Address(e)),
            },
        )
    } else if same_text(m, "STRO") {
        Some(
            match Address::from_tokens_long(ops, &string_output_list()) {
                Ok(a) => Ok(Instruction::STRO(a)),
                Err(e) => Err(Error::Address(e)),
            },
        )
    } else if same_text(m, "CHARI") {
        Some(
            match Address::from_tokens_long(ops, &without_immediate_list()) {
                Ok(a) => Ok(Instruction::CHARI(a)),
                Err(e) => Err(Error::Address(e)),
            },
        )
    } else if same_text(m, "CHARO") {
        Some(
            match Address::from_tokens_long(ops, &every_mode_list()) {
                Ok(a) => Ok(Instruction::CHARO(a)),
                Err(e) => Err(Error::Address(e)),
            },
        )
    } else if same_text(m, "ADDSP") {
        Some(
            match Address::from_tokens_long(ops, &every_mode_list()) {
                Ok(a) => Ok(Instruction::ADDSP(a)),
                Err(e) => Err(Error::Address(e)),
            },
        )
    } else if same_text(m, "SUBSP") {
        Some(
            match Address::from_tokens_long(ops, &every_mode_list()) {
                Ok(a) => Ok(Instruction::SUBSP(a)),
                Err(e) => Err(Error::Address(e)),
            },
        )
    } else {
        None
    }
}

/// Looks up a mnemonic of an instruction with a register and an operand.
fn register_of(m: &str, ops: &[Token]) -> (r: Option<Result<Instruction, Error>>)
    ensures
        r == decode_register(m@, ops@),
{
    if same_text(m, "ADDA") {
        Some(
            match Address::from_tokens_long(ops, &every_mode_list()) {
                Ok(a) => Ok(Instruction::ADDr(Register::Accumulator, a)),
                Err(e) => Err(Error::Address(e)),
            },
        )
    } else if same_text(m, "ADDX") {
        Some(
            match Address::from_tokens_long(ops, &every_mode_list()) {
                Ok(a) => Ok(Instruction::ADDr(Register::IndexRegister, a)),
                Err(e) => Err(Error::Address(e)),
            },
        )
    } else if same_text(m, "SUBA") {
        Some(
            match Address::from_tokens_long(ops, &every_mode_list()) {
                Ok(a) => Ok(Instruction::SUBr(Register::Accumulator, a)),
                Err(e) => Err(Error::Address(e)),
            },
        )
    } else if same_text(m, "SUBX") {
        Some(
            match Address::from_tokens_long(ops, &every_mode_list()) {
                Ok(a) => Ok(Instruction::SUBr(Register::IndexRegister, a)),
                Err(e) => Err(Error::Address(e)),
            },
        )
    } else if same_text(m, "ANDA") {
        Some(
            match Address::from_tokens_long(ops, &every_mode_list()) {
                Ok(a) => Ok(Instruction::ANDr(Register::Accumulator, a)),
                Err(e) => Err(Error::Address(e)),
            },
        )
    } else if same_text(m, "ANDX") {
        Some(
            match Address::from_tokens_long(ops, &every_mode_list()) {
                Ok(a) => Ok(Instruction::ANDr(Register::IndexRegister, a)),
                Err(e) => Err(Error::Address(e)),
            },
        )
    } else if same_text(m, "ORA") {
        Some(
            match Address::from_tokens_long(ops, &every_mode_list()) {
                Ok(a) => Ok(Instruction::ORr(Register::Accumulator, a)),
                Err(e) => Err(Error::Address(e)),
            },
        )
    } else if same_text(m, "ORX") {
        Some(
            match Address::from_tokens_long(ops, &every_mode_list()) {
                Ok(a) => Ok(Instruction::ORr(Register::IndexRegister, a)),
                Err(e) => Err(Error::Address(e)),
            },
        )
    } else if same_text(m, "CPA") {
        Some(
            match Address::from_tokens_long(ops, &every_mode_list()) {
                Ok(a) => Ok(Instruction::CPr(Register::Accumulator, a)),
                Err(e) => Err(Error::Address(e)),
            },
        )
    } else if same_text(m, "CPX") {
        Some(
            match Address::from_tokens_long(ops, &every_mode_list()) {
                Ok(a) => Ok(Instruction::CPr(Register::IndexRegister, a)),
                Err(e) => Err(Error::Address(e)),
            },
        )
    } else if same_text(m, "LDA") {
        Some(
            match Address::from_tokens_long(ops, &every_mode_list()) {
                Ok(a) => Ok(Instruction::LDr(Register::Accumulator, a)),
                Err(e) => Err(Error::Address(e)),
            },
        )
    } else if same_text(m, "LDX") {
        Some(
            match Address::from_tokens_long(ops, &every_mode_list()) {
                Ok(a) => Ok(Instruction::LDr(Register::IndexRegister, a)),
                Err(e) => Err(Error::Address(e)),
            },
        )
    } else if same_text(m, "LDBYTEA") {
        Some(
            match Address::from_tokens_long(ops, &every_mode_list()) {
                Ok(a) => Ok(Instruction::LDBYTEr(Register::Accumulator, a)),
                Err(e) => Err(Error::Address(e)),
            },
        )
    } else if same_text(m, "LDBYTEX") {
        Some(
            match Address::from_tokens_long(ops, &every_mode_list()) {
                Ok(a) => Ok(Instruction::LDBYTEr(Register::IndexRegister, a)),
                Err(e) => Err(Error::Address(e)),
            },
        )
    } else if same_text(m, "STA") {
        Some(
            match Address::from_tokens_long(ops, &without_immediate_list()) {
                Ok(a) => Ok(Instruction::STr(Register::Accumulator, a)),
                Err(e) => Err(Error::Address(e)),
            },
        )
    } else if same_text(m, "STX") {
        Some(
            match Address::from_tokens_long(ops, &without_immediate_list()) {
                Ok(a) => Ok(Instruction::STr(Register::IndexRegister, a)),
                Err(e) => Err(Error::Address(e)),
            },
        )
    } else if same_text(m, "STBYTEA") {
        Some(
            match Address::from_tokens_long(ops, &without_immediate_list()) {
                Ok(a) => Ok(Instruction::STBYTEr(Register::Accumulator, a)),
                Err(e) => Err(Error::Address(e)),
            },
        )
    } else if same_text(m, "STBYTEX") {
        Some(
            match Address::from_tokens_long(ops, &without_immediate_list()) {
                Ok(a) => Ok(Instruction::STBYTEr(Register::IndexRegister, a)),
                Err(e) => Err(Error::Address(e)),
            },
        )
    } else {
        None
    }
}
impl Instruction {
    /// Reads an instruction line: a mnemonic, in any case, and its operand tokens.
    pub fn from_tokens(tokens: &[Token]) -> (r: Result<Self, Error>)
        ensures
            r == parse_instruction(tokens@),
    {
        if tokens.len() == 0 {
            return Err(Error::MissingInstruction);
        }
        match &tokens[0] {
            Token::Identifier(instruction) => {
                let upper = to_upper(instruction.as_str());
                let (_, operands) = tokens.split_at(1);
                assert(operands@ =~= tokens@.drop_first());
                match Self::from_mnemonic(upper.as_str(), operands) {
                    Some(r) => r,
                    None => Err(Error::InvalidInstruction(instruction.clone())),
                }
            },
            _ => Err(Error::MissingInstruction),
        }
    }

    /// Builds the instruction of an upper-case mnemonic from its operand tokens;
    /// `None` if no instruction has that mnemonic.
    pub fn from_mnemonic(mnemonic: &str, operands: &[Token]) -> (r: Option<Result<Self, Error>>)
        ensures
            r == decode_instruction(mnemonic@, operands@),
    {
        if let Some(i) = plain_of(mnemonic) {
            return Some(Ok(i));
        }
        if let Some(r) = branch_of(mnemonic, operands) {
            return Some(r);
        }
        if let Some(r) = unary_of(mnemonic, operands) {
            return Some(r);
        }
        register_of(mnemonic, operands)
    }

    pub fn get_specifier(&self) -> (r: u8)
        ensures
            r == specifier(*self),
    {
        match self {
            Self::STOP => 0b00000000,
            Self::RETTR => 0b00000001,
            Self::MOVSPA => 0b00000010,
            Self::MOVFLGA => 0b00000011,
            Self::BR(..) => 0b00000100,
            Self::BRLE(..) => 0b00000110,
            Self::BRLT(..) => 0b00001000,
            Self::BREQ(..) => 0b00001010,
            Self::BRNE(..) => 0b00001100,
            Self::BRGE(..) => 0b00001110,
            Self::BRGT(..) => 0b00010000,
            Self::BRV(..) => 0b00010010,
            Self::BRC(..) => 0b00010100,
            Self::CALL(..) => 0b00010110,
            Self::NOTr(..) => 0b00011000,
            Self::NEGr(..) => 0b00011010,
            Self::ASLr(..) => 0b00011100,
            Self::ASRr(..) => 0b00011110,
            Self::ROLr(..) => 0b00100000,
            Self::RORr(..) => 0b00100010,
            Self::NOPn(..) => 0b00100100,
            Self::NOP(..) => 0b00101000,
            Self::DECI(..) => 0b00110000,
            Self::DECO(..) => 0b00111000,
            Self::STRO(..) => 0b01000000,
            Self::CHARI(..) => 0b01001000,
            Self::CHARO(..) => 0b01010000,
            Self::RETn(..) => 0b01011000,
            Self::ADDSP(..) => 0b01100000,
            Self::SUBSP(..) => 0b01101000,
            Self::ADDr(..) => 0b01110000,
            Self::SUBr(..) => 0b10000000,
            Self::ANDr(..) => 0b10010000,
            Self::ORr(..) => 0b10100000,
            Self::CPr(..) => 0b10110000,
            Self::LDr(..) => 0b11000000,
            Self::LDBYTEr(..) => 0b11010000,
            Self::STr(..) => 0b11100000,
            Self::STBYTEr(..) => 0b11110000,
        }
    }

    pub fn byte_size(&self) -> (r: usize)
        ensures
            r == instruction_size(*self),
    {
        match self {
            Self::STOP
            | Self::RETTR
            | Self::MOVSPA
            | Self::MOVFLGA
            | Self::NOTr(..)
            | Self::NEGr(..)
            | Self::ASLr(..)
            | Self::ASRr(..)
            | Self::ROLr(..)
            | Self::RORr(..)
            | Self::NOPn(..)
            | Self::RETn(..) => 1,
            Self::BR(..)
            | Self::BRLE(..)
            | Self::BRLT(..)
            | Self::BREQ(..)
            | Self::BRNE(..)
            | Self::BRGE(..)
            | Self::BRGT(..)
            | Self::BRV(..)
            | Self::BRC(..)
            | Self::CALL(..)
            | Self::NOP(..)
            | Self::DECI(..)
            | Self::DECO(..)
            | Self::STRO(..)
            | Self::CHARI(..)
            | Self::CHARO(..)
            | Self::ADDSP(..)
            | Self::SUBSP(..)
            | Self::ADDr(..)
            | Self::SUBr(..)
            | Self::ANDr(..)
            | Self::ORr(..)
            | Self::CPr(..)
            | Self::LDr(..)
            | Self::LDBYTEr(..)
            | Self::STr(..)
            | Self::STBYTEr(..) => 3,
        }
    }

    /// The bytes of the instruction, its operand resolved through the symbol table.
    #[verifier::rlimit(60)]
    pub fn as_bytes(&self, address_table: &AddressTable) -> (r: Result<Vec<u8>, address::Error>)
        requires
            address_table.wf(),
            counts_fit(*self),
        ensures
            bytes_match(r, encode_instruction(*self, address_table@)),
    {
        let base = self.get_specifier();
        match self {
            Self::BR(address)
            | Self::BRLE(address)
            | Self::BRLT(address)
            | Self::BREQ(address)
            | Self::BRNE(address)
            | Self::BRGE(address)
            | Self::BRGT(address)
            | Self::BRV(address)
            | Self::BRC(address)
            | Self::CALL(address) => branch_bytes(address_table, address, base),
            Self::NOP(address)
            | Self::DECI(address)
            | Self::DECO(address)
            | Self::STRO(address)
            | Self::CHARI(address)
            | Self::CHARO(address)
            | Self::ADDSP(address)
            | Self::SUBSP(address) => operand_bytes(
                address_table,
                address,
                base + address.mode.as_byte_long(),
            ),
            Self::ADDr(register, address)
            | Self::SUBr(register, address)
            | Self::ANDr(register, address)
            | Self::ORr(register, address)
            | Self::CPr(register, address)
            | Self::LDr(register, address)
            | Self::LDBYTEr(register, address)
            | Self::STr(register, address)
            | Self::STBYTEr(register, address) => operand_bytes(
                address_table,
                address,
                base + register.as_byte() * 8 + address.mode.as_byte_long(),
            ),
            Self::NOTr(register)
            | Self::NEGr(register)
            | Self::ASLr(register)
            | Self::ASRr(register)
            | Self::ROLr(register)
            | Self::RORr(register) => Ok(one_byte(base + register.as_byte())),
            Self::NOPn(n) | Self::RETn(n) => Ok(one_byte(Pep8Byte::new(base).add(*n).as_byte())),
            _ => Ok(one_byte(base)),
        }
    }
}

} // verus!
