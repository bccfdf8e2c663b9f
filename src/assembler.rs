//! Statements, statement lines, and the two-pass driver.

use vstd::arithmetic::div_mod::lemma_add_mod_noop;
use vstd::prelude::*;

use crate::address::{self, AddrLocation, Address, AddressTable};
use crate::dotcommand::{self, directive_size, encode_directive, parse_directive, DotCommand};
use crate::instruction::{
    self, bytes_match, counts_fit, encode_instruction, instruction_size, lemma_decoded_counts_fit,
    operand_word, parse_instruction, Instruction,
};
use crate::lexer::Token;
use crate::types::Pep8Word;

verus! {

/// Why a source line could not be assembled.
#[derive(Debug)]
pub enum Error {
    TokensEmpty,
    InvalidTokenType,
    Instruction(instruction::Error),
    DotCommand(dotcommand::Error),
    Address(address::Error),
}

/// One statement: an instruction or a directive.
#[derive(Debug)]
pub enum Statement {
    Instruction(Instruction),
    DotCommand(DotCommand),
}

/// What the tokens of a statement make: an identifier starts an instruction, a
/// directive name starts a directive.
pub open spec fn parse_statement(ts: Seq<Token>) -> Result<Statement, Error> {
    if ts.len() == 0 {
        Err(Error::TokensEmpty)
    } else if ts[0] is Identifier {
        match parse_instruction(ts) {
            Ok(i) => Ok(Statement::Instruction(i)),
            Err(e) => Err(Error::Instruction(e)),
        }
    } else if ts[0] is DotCommand {
        match parse_directive(ts) {
            Ok(d) => Ok(Statement::DotCommand(d)),
            Err(e) => Err(Error::DotCommand(e)),
        }
    } else {
        Err(Error::InvalidTokenType)
    }
}

/// The number of bytes a statement takes.
pub open spec fn statement_size(s: Statement) -> nat {
    match s {
        Statement::Instruction(i) => instruction_size(i),
        Statement::DotCommand(d) => directive_size(d),
    }
}

/// The bytes of a statement under a symbol table.
pub open spec fn encode_statement(s: Statement, t: Map<Seq<char>, u16>) -> Result<Seq<u8>, address::Error> {
    match s {
        Statement::Instruction(i) => encode_instruction(i, t),
        Statement::DotCommand(d) => encode_directive(d, t),
    }
}

/// Whether the counts in a statement fit their bit fields.
pub open spec fn statement_fits(s: Statement) -> bool {
    match s {
        Statement::Instruction(i) => counts_fit(i),
        Statement::DotCommand(_) => true,
    }
}

impl Statement {
    pub fn from_tokens(tokens: &[Token]) -> (r: Result<Self, Error>)
        ensures
            r == parse_statement(tokens@),
            r matches Ok(s) ==> statement_fits(s),
    {
        if tokens.len() == 0 {
            return Err(Error::TokensEmpty);
        }
        match &tokens[0] {
            Token::Identifier(_) => match Instruction::from_tokens(tokens) {
                Ok(i) => {
                    proof {
                        lemma_decoded_counts_fit(tokens@);
                    }
                    Ok(Self::Instruction(i))
                },
                Err(e) => Err(Error::Instruction(e)),
            },
            Token::DotCommand(_) => match DotCommand::from_tokens(tokens) {
                Ok(d) => Ok(Self::DotCommand(d)),
                Err(e) => Err(Error::DotCommand(e)),
            },
            _ => Err(Error::InvalidTokenType),
        }
    }

    pub fn byte_size(&self) -> (r: usize)
        ensures
            r == statement_size(*self),
    {
        match self {
            Self::Instruction(instruction) => instruction.byte_size(),
            Self::DotCommand(dotcommand) => dotcommand.byte_size(),
        }
    }

    pub fn as_bytes(&self, address_table: &AddressTable) -> (r: Result<Vec<u8>, address::Error>)
        requires
            address_table.wf(),
            statement_fits(*self),
        ensures
            bytes_match(r, encode_statement(*self, address_table@)),
    {
        match self {
            Self::Instruction(instruction) => instruction.as_bytes(address_table),
            Self::DotCommand(dotcommand) => dotcommand.as_bytes(address_table),
        }
    }
}

/// One source line: a statement with the label that may precede it.
#[derive(Debug)]
pub struct StatementLine {
    pub label: Option<String>,
    pub statement: Statement,
}

/// What the tokens of a line make: a leading label, then a statement.
pub open spec fn parse_statement_line(ts: Seq<Token>) -> Result<StatementLine, Error> {
    if ts.len() == 0 {
        Err(Error::TokensEmpty)
    } else if ts[0] is Label {
        match parse_statement(ts.drop_first()) {
            Ok(s) => Ok(StatementLine { label: Some(ts[0]->Label_0), statement: s }),
            Err(e) => Err(e),
        }
    } else {
        match parse_statement(ts) {
            Ok(s) => Ok(StatementLine { label: None, statement: s }),
            Err(e) => Err(e),
        }
    }
}

impl StatementLine {
    pub fn from_tokens(tokens: &[Token]) -> (r: Result<Self, Error>)
        ensures
            r == parse_statement_line(tokens@),
            r matches Ok(l) ==> statement_fits(l.statement),
    {
        if tokens.len() == 0 {
            return Err(Error::TokensEmpty);
        }
        match &tokens[0] {
            Token::Label(label) => {
                let (_, rest) = tokens.split_at(1);
                assert(rest@ =~= tokens@.drop_first());
                match Statement::from_tokens(rest) {
                    Ok(statement) => Ok(Self { label: Some(label.clone()), statement }),
                    Err(e) => Err(e),
                }
            },
            _ => match Statement::from_tokens(tokens) {
                Ok(statement) => Ok(Self { label: None, statement }),
                Err(e) => Err(e),
            },
        }
    }

    pub fn byte_size(&self) -> (r: usize)
        ensures
            r == statement_size(self.statement),
    {
        self.statement.byte_size()
    }

    pub fn as_bytes(&self, address_table: &AddressTable) -> (r: Result<Vec<u8>, address::Error>)
        requires
            address_table.wf(),
            statement_fits(self.statement),
        ensures
            bytes_match(r, encode_statement(self.statement, address_table@)),
    {
        self.statement.as_bytes(address_table)
    }
}

/// The statement lines of a program, or the error of its first bad line.
pub open spec fn parse_lines(lines: Seq<Vec<Token>>) -> Result<Seq<StatementLine>, Error>
    decreases lines.len(),
{
    if lines.len() == 0 {
        Ok(Seq::empty())
    } else {
        match parse_lines(lines.drop_last()) {
            Err(e) => Err(e),
            Ok(p) => match parse_statement_line(lines.last()@) {
                Ok(l) => Ok(p.push(l)),
                Err(e) => Err(e),
            },
        }
    }
}

/// The number of bytes that a run of statement lines takes.
pub open spec fn total_size(s: Seq<StatementLine>) -> nat
    decreases s.len(),
{
    if s.len() == 0 {
        0
    } else {
        total_size(s.drop_last()) + statement_size(s.last().statement)
    }
}

/// The address of the line after a run of lines: their size, in 16 bits.
pub open spec fn address_after(s: Seq<StatementLine>) -> u16 {
    (total_size(s) % 65536) as u16
}

/// The symbol table that the first pass builds: each label bound to the address
/// of its line, a later definition replacing an earlier one.
pub open spec fn symbols(s: Seq<StatementLine>) -> Map<Seq<char>, u16>
    decreases s.len(),
{
    if s.len() == 0 {
        Map::empty()
    } else {
        let p = s.drop_last();
        match s.last().label {
            Some(l) => symbols(p).insert(l@, address_after(p)),
            None => symbols(p),
        }
    }
}

/// The bytes of a run of lines in order, or the error of the first that fails.
pub open spec fn encode_lines(s: Seq<StatementLine>, t: Map<Seq<char>, u16>) -> Result<Seq<u8>, address::Error>
    decreases s.len(),
{
    if s.len() == 0 {
        Ok(Seq::empty())
    } else {
        match encode_lines(s.drop_last(), t) {
            Err(e) => Err(e),
            Ok(b) => match encode_statement(s.last().statement, t) {
                Ok(c) => Ok(b + c),
                Err(e) => Err(e),
            },
        }
    }
}

/// The image of a program: every line parsed, the symbol table built from all of
/// them, then every line encoded under it.
pub open spec fn assembly(lines: Seq<Vec<Token>>) -> Result<Seq<u8>, Error> {
    match parse_lines(lines) {
        Err(e) => Err(e),
        Ok(s) => match encode_lines(s, symbols(s)) {
            Ok(b) => Ok(b),
            Err(e) => Err(Error::Address(e)),
        },
    }
}

/// The size that the first pass counts for a statement is the length of the
/// bytes that the second pass encodes for it, whatever the symbol table.
pub proof fn lemma_size_is_encoded_length(s: Statement, t: Map<Seq<char>, u16>)
    ensures
        encode_statement(s, t) matches Ok(b) ==> b.len() == statement_size(s),
{
}

/// The image of a run of lines is as long as the sizes of its lines added up.
pub proof fn lemma_image_length(s: Seq<StatementLine>, t: Map<Seq<char>, u16>)
    ensures
        encode_lines(s, t) matches Ok(b) ==> b.len() == total_size(s),
    decreases s.len(),
{
    if s.len() > 0 {
        lemma_image_length(s.drop_last(), t);
        lemma_size_is_encoded_length(s.last().statement, t);
    }
}

/// A prefix of a run of lines takes no more bytes than the whole run.
proof fn lemma_prefix_size(s: Seq<StatementLine>, k: int)
    requires
        0 <= k <= s.len(),
    ensures
        total_size(s.take(k)) <= total_size(s),
    decreases s.len(),
{
    if k == s.len() {
        assert(s.take(k) =~= s);
    } else {
        assert(s.drop_last().take(k) =~= s.take(k));
        lemma_prefix_size(s.drop_last(), k);
    }
}

/// The bytes of each line stand in the image at the offset that the first pass
/// counted for the line: the address it gives the line's label, up to 16 bits.
pub proof fn lemma_line_offset(s: Seq<StatementLine>, t: Map<Seq<char>, u16>, j: int)
    requires
        0 <= j < s.len(),
        encode_lines(s, t) is Ok,
    ensures
        encode_statement(s[j].statement, t) matches Ok(c) && encode_lines(s, t)->Ok_0.subrange(
            total_size(s.take(j)) as int,
            (total_size(s.take(j)) + c.len()) as int,
        ) == c,
    decreases s.len(),
{
    let p = s.drop_last();
    lemma_image_length(p, t);
    let b = encode_lines(p, t)->Ok_0;
    if j == s.len() - 1 {
        assert(p =~= s.take(j));
        let c = encode_statement(s[j].statement, t)->Ok_0;
        assert((b + c).subrange(b.len() as int, (b.len() + c.len()) as int) =~= c);
    } else {
        assert(p.take(j) =~= s.take(j));
        lemma_line_offset(p, t, j);
        let c = encode_statement(s[j].statement, t)->Ok_0;
        lemma_size_is_encoded_length(s[j].statement, t);
        assert(p.take(j + 1).drop_last() =~= p.take(j));
        lemma_prefix_size(p, j + 1);
        let last = encode_statement(s.last().statement, t)->Ok_0;
        let lo = total_size(s.take(j)) as int;
        assert((b + last).subrange(lo, lo + c.len()) =~= b.subrange(lo, lo + c.len()));
    }
}

/// The table of the first pass binds a label to the address of the last line
/// that defines it.
proof fn lemma_label_bound(s: Seq<StatementLine>, j: int, l: String)
    requires
        0 <= j < s.len(),
        s[j].label == Some(l),
        forall|k: int| j < k < s.len() ==> !(#[trigger] s[k].label matches Some(m) && m@ == l@),
    ensures
        symbols(s).contains_key(l@),
        symbols(s)[l@] == address_after(s.take(j)),
    decreases s.len(),
{
    if j == s.len() - 1 {
        assert(s.drop_last() =~= s.take(j));
    } else {
        assert(s.drop_last().take(j) =~= s.take(j));
        assert(!(s[s.len() - 1].label matches Some(m) && m@ == l@));
        lemma_label_bound(s.drop_last(), j, l);
    }
}

/// A reference to a label resolves, under the table of the first pass, to the
/// address of the line that defines it (the last one, if several do), wherever
/// the reference stands: on a line before the definition too.
pub proof fn lemma_forward_reference(s: Seq<StatementLine>, j: int, l: String, a: Address)
    requires
        0 <= j < s.len(),
        s[j].label == Some(l),
        forall|k: int| j < k < s.len() ==> !(#[trigger] s[k].label matches Some(m) && m@ == l@),
        a.location matches AddrLocation::Label(name) && name@ == l@,
    ensures
        operand_word(symbols(s), a) == Ok::<Pep8Word, address::Error>(
            Pep8Word(address_after(s.take(j))),
        ),
{
    lemma_label_bound(s, j, l);
}

/// A bad line stops parsing: the error of a prefix is the error of the whole.
proof fn lemma_parse_error_stays(lines: Seq<Vec<Token>>, k: int)
    requires
        0 <= k <= lines.len(),
        parse_lines(lines.take(k)) is Err,
    ensures
        parse_lines(lines) == parse_lines(lines.take(k)),
    decreases lines.len(),
{
    if k == lines.len() {
        assert(lines.take(k) =~= lines);
    } else {
        assert(lines.drop_last().take(k) =~= lines.take(k));
        lemma_parse_error_stays(lines.drop_last(), k);
    }
}

/// A line that fails to encode stops encoding: the error of a prefix is the error
/// of the whole.
proof fn lemma_encode_error_stays(s: Seq<StatementLine>, t: Map<Seq<char>, u16>, k: int)
    requires
        0 <= k <= s.len(),
        encode_lines(s.take(k), t) is Err,
    ensures
        encode_lines(s, t) == encode_lines(s.take(k), t),
    decreases s.len(),
{
    if k == s.len() {
        assert(s.take(k) =~= s);
    } else {
        assert(s.drop_last().take(k) =~= s.take(k));
        lemma_encode_error_stays(s.drop_last(), t, k);
    }
}

/// Assembles a program given as token lines: the first pass gives each label
/// the address of its line, the second encodes every line under that table.
pub fn assemble(lines: Vec<Vec<Token>>) -> (r: Result<Vec<u8>, Error>)
    ensures
        match assembly(lines@) {
            Ok(b) => r matches Ok(v) && v@ == b,
            Err(e) => r == Err::<Vec<u8>, Error>(e),
        },
{
    let mut statement_lines: Vec<StatementLine> = Vec::new();
    let mut address: usize = 0;
    let mut address_table = AddressTable::new();

    let mut i: usize = 0;
    while i < lines.len()
        invariant
            i <= lines@.len(),
            parse_lines(lines@.take(i as int)) == Ok::<Seq<StatementLine>, Error>(
                statement_lines@,
            ),
            address_table.wf(),
            address_table@ == symbols(statement_lines@),
            address == total_size(statement_lines@) % 65536,
            forall|j: int|
                0 <= j < statement_lines@.len() ==> statement_fits(
                    #[trigger] statement_lines@[j].statement,
                ),
        decreases lines@.len() - i,
    {
        let ghost before = statement_lines@;
        assert(lines@.take(i + 1).drop_last() =~= lines@.take(i as int));
        assert(lines@.take(i + 1).last() == lines@[i as int]);
        let statement_line = match StatementLine::from_tokens(lines[i].as_slice()) {
            Ok(l) => l,
            Err(e) => {
                proof {
                    lemma_parse_error_stays(lines@, i + 1);
                }
                return Err(e);
            },
        };
        if let Some(label) = &statement_line.label {
            address_table.insert(label.clone(), Pep8Word::new(address as u16));
        }
        let size = statement_line.byte_size();
        proof {
            lemma_add_mod_noop(total_size(before) as int, size as int, 65536);
        }
        address = (address + size % 65536) % 65536;
        statement_lines.push(statement_line);
        assert(statement_lines@.drop_last() =~= before);
        i = i + 1;
    }
    assert(lines@.take(lines@.len() as int) =~= lines@);

    let mut byte_code: Vec<u8> = Vec::new();
    let mut k: usize = 0;
    while k < statement_lines.len()
        invariant
            k <= statement_lines@.len(),
            address_table.wf(),
            address_table@ == symbols(statement_lines@),
            parse_lines(lines@) == Ok::<Seq<StatementLine>, Error>(statement_lines@),
            encode_lines(statement_lines@.take(k as int), address_table@) == Ok::<
                Seq<u8>,
                address::Error,
            >(byte_code@),
            forall|j: int|
                0 <= j < statement_lines@.len() ==> statement_fits(
                    #[trigger] statement_lines@[j].statement,
                ),
        decreases statement_lines@.len() - k,
    {
        assert(statement_lines@.take(k + 1).drop_last() =~= statement_lines@.take(k as int));
        assert(statement_lines@.take(k + 1).last() == statement_lines@[k as int]);
        let mut bytes = match statement_lines[k].as_bytes(&address_table) {
            Ok(b) => b,
            Err(e) => {
                proof {
                    lemma_encode_error_stays(statement_lines@, address_table@, k + 1);
                }
                return Err(Error::Address(e));
            },
        };
        byte_code.append(&mut bytes);
        k = k + 1;
    }
    assert(statement_lines@.take(statement_lines@.len() as int) =~= statement_lines@);
    Ok(byte_code)
}

} // verus!
