//! Splitting a source line into tokens.

use vstd::prelude::*;

use crate::text::{chars_of, push_char, text_of};

verus! {

/// Why a source line could not be split into tokens.
#[derive(Debug, Clone, Copy, PartialEq, Eq, Structural)]
pub enum Error {
    UnexpectedEndOfLine,
    InvalidHexValue,
    InvalidEscapedChar,
    InvalidChar,
    InvalidNumber,
    InvalidString,
    InvalidDotCommand,
}

/// A lexical token of one source line.
#[derive(Debug, PartialEq)]
pub enum Token {
    Char(char),
    String(String),
    Number(u16),
    Comma,
    DotCommand(String),
    Label(String),
    Identifier(String),
}

impl Clone for Token {
    fn clone(&self) -> (r: Self)
        ensures
            r == *self,
    {
        match self {
            Token::Char(c) => Token::Char(*c),
            Token::String(s) => Token::String(s.clone()),
            Token::Number(n) => Token::Number(*n),
            Token::Comma => Token::Comma,
            Token::DotCommand(s) => Token::DotCommand(s.clone()),
            Token::Label(s) => Token::Label(s.clone()),
            Token::Identifier(s) => Token::Identifier(s.clone()),
        }
    }
}

/// A token with its text as characters.
pub enum TokenView {
    Char(char),
    String(Seq<char>),
    Number(u16),
    Comma,
    DotCommand(Seq<char>),
    Label(Seq<char>),
    Identifier(Seq<char>),
}

impl View for Token {
    type V = TokenView;

    open spec fn view(&self) -> TokenView {
        match self {
            Token::Char(c) => TokenView::Char(*c),
            Token::String(s) => TokenView::String(s@),
            Token::Number(n) => TokenView::Number(*n),
            Token::Comma => TokenView::Comma,
            Token::DotCommand(s) => TokenView::DotCommand(s@),
            Token::Label(s) => TokenView::Label(s@),
            Token::Identifier(s) => TokenView::Identifier(s@),
        }
    }
}

/// The views of a run of tokens.
pub open spec fn token_views(ts: Seq<Token>) -> Seq<TokenView> {
    ts.map_values(|t: Token| t@)
}

pub open spec fn is_digit(c: char) -> bool {
    '0' <= c && c <= '9'
}

/// A character that may continue a name.
pub open spec fn is_word_char(c: char) -> bool {
    ('a' <= c && c <= 'z') || ('A' <= c && c <= 'Z') || is_digit(c) || c == '_'
}

/// A character that starts a name, a label or a directive.
pub open spec fn starts_word(c: char) -> bool {
    ('a' <= c && c <= 'z') || ('A' <= c && c <= 'Z') || c == '_' || c == ':' || c == '.'
}

/// A character that starts a number.
pub open spec fn starts_number(c: char) -> bool {
    c == '-' || c == '+' || is_digit(c)
}

/// The position after the run of name characters that starts at `i`.
pub open spec fn word_end(s: Seq<char>, i: int) -> int
    decreases s.len() - i,
{
    if 0 <= i < s.len() && is_word_char(s[i]) {
        word_end(s, i + 1)
    } else {
        i
    }
}

/// The position after the run of decimal digits that starts at `i`.
pub open spec fn digits_end(s: Seq<char>, i: int) -> int
    decreases s.len() - i,
{
    if 0 <= i < s.len() && is_digit(s[i]) {
        digits_end(s, i + 1)
    } else {
        i
    }
}

/// The value of a hexadecimal digit.
pub open spec fn hex_digit(c: char) -> Option<u32> {
    if is_digit(c) {
        Some((c as u32 - '0' as u32) as u32)
    } else if 'a' <= c && c <= 'f' {
        Some((c as u32 - 'a' as u32 + 10) as u32)
    } else if 'A' <= c && c <= 'F' {
        Some((c as u32 - 'A' as u32 + 10) as u32)
    } else {
        None
    }
}

/// The value of the two characters of a `\x` escape read as a hexadecimal number
/// (an explicit plus sign with one digit counts).
pub open spec fn hex_pair(a: char, b: char) -> Option<u32> {
    if a == '+' {
        hex_digit(b)
    } else {
        match (hex_digit(a), hex_digit(b)) {
            (Some(x), Some(y)) => Some((16 * x + y) as u32),
            _ => None,
        }
    }
}

/// The character of the escape sequence whose code starts at `i` (after the
/// backslash), with the position after it.
pub open spec fn escape_at(s: Seq<char>, i: int) -> Result<(char, int), Error> {
    if !(0 <= i < s.len()) {
        Err(Error::UnexpectedEndOfLine)
    } else {
        let c = s[i];
        if c == 'b' {
            Ok(('\x08', i + 1))
        } else if c == 'f' {
            Ok(('\x0C', i + 1))
        } else if c == 'n' {
            Ok(('\n', i + 1))
        } else if c == 'r' {
            Ok(('\r', i + 1))
        } else if c == 't' {
            Ok(('\t', i + 1))
        } else if c == 'v' {
            Ok(('\x0B', i + 1))
        } else if c == 'x' || c == 'X' {
            if i + 2 >= s.len() {
                Err(Error::UnexpectedEndOfLine)
            } else {
                match hex_pair(s[i + 1], s[i + 2]) {
                    Some(v) => Ok((((v as u8) as char), i + 3)),
                    None => Err(Error::InvalidHexValue),
                }
            }
        } else if c == '"' || c == '\'' || c == '\\' {
            Ok((c, i + 1))
        } else {
            Err(Error::InvalidEscapedChar)
        }
    }
}

/// The rest of a string literal from `i` on, appended to `acc`, with the position
/// after its closing quote.
pub open spec fn string_at(s: Seq<char>, i: int, acc: Seq<char>) -> Result<(Seq<char>, int), Error>
    decreases s.len() - i,
{
    if !(0 <= i < s.len()) {
        Err(Error::InvalidString)
    } else if s[i] == '"' {
        Ok((acc, i + 1))
    } else if s[i] == '\\' {
        match escape_at(s, i + 1) {
            Err(e) => Err(e),
            Ok((c, j)) => string_at(s, j, acc.push(c)),
        }
    } else {
        string_at(s, i + 1, acc.push(s[i]))
    }
}

/// The value of a run of decimal digit characters in a base.
pub open spec fn digits_value(d: Seq<char>, base: nat) -> nat
    decreases d.len(),
{
    if d.len() == 0 {
        0
    } else {
        (digits_value(d.drop_last(), base) * base + (d.last() as int - '0' as int)) as nat
    }
}

/// The 16-bit value of a non-empty run of decimal digit characters in a base.
pub open spec fn radix_value(d: Seq<char>, base: nat) -> Option<u16> {
    if d.len() == 0 || exists|k: int| 0 <= k < d.len() && !is_digit(#[trigger] d[k]) {
        None
    } else if digits_value(d, base) > 65535 {
        None
    } else {
        Some(digits_value(d, base) as u16)
    }
}

/// The value of a number's text: `0x` digits are hexadecimal, others decimal
/// after an optional plus sign.
pub open spec fn number_value(v: Seq<char>) -> Option<u16> {
    if v.len() >= 2 && v[0] == '0' && (v[1] == 'x' || v[1] == 'X') {
        radix_value(v.skip(2), 16)
    } else if v.len() >= 1 && v[0] == '+' {
        radix_value(v.skip(1), 10)
    } else {
        radix_value(v, 10)
    }
}

/// The number token that starts at `i`, with the position after it.
pub open spec fn number_at(s: Seq<char>, i: int) -> Result<(Option<TokenView>, int), Error> {
    let from = if s[i] == '0' && i + 1 < s.len() && (s[i + 1] == 'x' || s[i + 1] == 'X') {
        i + 2
    } else {
        i + 1
    };
    let k = digits_end(s, from);
    if k < s.len() && !(s[k] == ' ' || s[k] == '\t' || s[k] == ',') {
        Err(Error::InvalidNumber)
    } else {
        match number_value(s.subrange(i, k)) {
            Some(n) => Ok((Some(TokenView::Number(n)), k)),
            None => Err(Error::InvalidNumber),
        }
    }
}

/// The name, label or directive token that starts at `i`, with the position after it.
pub open spec fn word_at(s: Seq<char>, i: int) -> Result<(Option<TokenView>, int), Error> {
    let j = word_end(s, i + 1);
    let v = s.subrange(i, j);
    if j < s.len() && s[j] == ':' {
        if v[0] == '.' {
            Err(Error::InvalidDotCommand)
        } else {
            Ok((Some(TokenView::Label(v)), j + 1))
        }
    } else if v[0] == '.' {
        Ok((Some(TokenView::DotCommand(v)), j))
    } else {
        Ok((Some(TokenView::Identifier(v)), j))
    }
}

/// The character literal that starts at `i`, with the position after it.
pub open spec fn char_at(s: Seq<char>, i: int) -> Result<(Option<TokenView>, int), Error> {
    if i + 1 >= s.len() || s[i + 1] == '\'' {
        Err(Error::InvalidChar)
    } else {
        let r = if s[i + 1] == '\\' {
            escape_at(s, i + 2)
        } else {
            Ok((s[i + 1], i + 2))
        };
        match r {
            Err(e) => Err(e),
            Ok((c, j)) => if j < s.len() && s[j] == '\'' {
                Ok((Some(TokenView::Char(c)), j + 1))
            } else {
                Err(Error::InvalidChar)
            },
        }
    }
}

/// One step of the lexer at `i`: the token found there, if any, and the
/// position where lexing goes on. A semicolon ends the line.
pub open spec fn step_at(s: Seq<char>, i: int) -> Result<(Option<TokenView>, int), Error>
    recommends
        0 <= i < s.len(),
{
    let c = s[i];
    if c == ';' {
        Ok((None, s.len() as int))
    } else if c == ' ' || c == '\t' {
        Ok((None, i + 1))
    } else if c == ',' {
        Ok((Some(TokenView::Comma), i + 1))
    } else if c == '\'' {
        char_at(s, i)
    } else if c == '"' {
        match string_at(s, i + 1, Seq::empty()) {
            Ok((v, j)) => Ok((Some(TokenView::String(v)), j)),
            Err(e) => Err(e),
        }
    } else if starts_number(c) {
        number_at(s, i)
    } else if starts_word(c) {
        word_at(s, i)
    } else {
        Err(Error::InvalidChar)
    }
}

/// Where the runs of name characters and of digits end.
pub proof fn lemma_run_ends(s: Seq<char>, i: int)
    requires
        0 <= i <= s.len(),
    ensures
        i <= word_end(s, i) <= s.len(),
        i <= digits_end(s, i) <= s.len(),
    decreases s.len() - i,
{
    if i < s.len() {
        lemma_run_ends(s, i + 1);
    }
}

/// A string literal ends after where it starts, within the line.
pub proof fn lemma_string_end(s: Seq<char>, i: int, acc: Seq<char>)
    ensures
        string_at(s, i, acc) matches Ok((_, j)) ==> i < j <= s.len(),
    decreases s.len() - i,
{
    if 0 <= i < s.len() && s[i] != '"' {
        if s[i] == '\\' {
            if let Ok((c, j)) = escape_at(s, i + 1) {
                lemma_string_end(s, j, acc.push(c));
            }
        } else {
            lemma_string_end(s, i + 1, acc.push(s[i]));
        }
    }
}

/// Each step of the lexer moves forward, and stays within the line.
pub proof fn lemma_step_advances(s: Seq<char>, i: int)
    requires
        0 <= i < s.len(),
    ensures
        step_at(s, i) matches Ok((_, j)) ==> i < j <= s.len(),
{
    lemma_run_ends(s, i + 1);
    if i + 2 <= s.len() {
        lemma_run_ends(s, i + 2);
    }
    lemma_string_end(s, i + 1, Seq::empty());
}

/// The tokens of a line from `i` on, appended to `acc`, or the first error.
pub open spec fn lex_from(s: Seq<char>, i: int, acc: Seq<TokenView>) -> Result<Seq<TokenView>, Error>
    decreases s.len() - i,
{
    if !(0 <= i < s.len()) {
        Ok(acc)
    } else {
        match step_at(s, i) {
            Err(e) => Err(e),
            Ok((t, j)) => {
                proof {
                    lemma_step_advances(s, i);
                }
                lex_from(
                    s,
                    j,
                    match t {
                        Some(t) => acc.push(t),
                        None => acc,
                    },
                )
            },
        }
    }
}

/// The tokens of a line, or the first error in it.
pub open spec fn lex(s: Seq<char>) -> Result<Seq<TokenView>, Error> {
    lex_from(s, 0, Seq::empty())
}

/// The view of a token that may be absent.
pub open spec fn option_view(t: Option<Token>) -> Option<TokenView> {
    match t {
        Some(t) => Some(t@),
        None => None,
    }
}

/// Whether an executable step result is the step that the lexer takes.
pub open spec fn step_matches(
    r: Result<(Option<Token>, usize), Error>,
    e: Result<(Option<TokenView>, int), Error>,
) -> bool {
    match e {
        Ok((t, j)) => r matches Ok((t2, j2)) && j2 == j && option_view(t2) == t,
        Err(x) => r == Err::<(Option<Token>, usize), Error>(x),
    }
}

/// The end of the run of name characters from `i`.
fn scan_word_end(chars: &Vec<char>, i: usize) -> (r: usize)
    requires
        i <= chars@.len(),
    ensures
        r == word_end(chars@, i as int),
        i <= r <= chars@.len(),
{
    let mut k = i;
    while k < chars.len() && (('a' <= chars[k] && chars[k] <= 'z') || ('A' <= chars[k] && chars[k]
        <= 'Z') || ('0' <= chars[k] && chars[k] <= '9') || chars[k] == '_')
        invariant
            i <= k <= chars@.len(),
            word_end(chars@, i as int) == word_end(chars@, k as int),
        decreases chars@.len() - k,
    {
        k = k + 1;
    }
    k
}

/// The end of the run of decimal digits from `i`.
fn scan_digits_end(chars: &Vec<char>, i: usize) -> (r: usize)
    requires
        i <= chars@.len(),
    ensures
        r == digits_end(chars@, i as int),
        i <= r <= chars@.len(),
{
    let mut k = i;
    while k < chars.len() && '0' <= chars[k] && chars[k] <= '9'
        invariant
            i <= k <= chars@.len(),
            digits_end(chars@, i as int) == digits_end(chars@, k as int),
        decreases chars@.len() - k,
    {
        k = k + 1;
    }
    k
}

fn hex_value(c: char) -> (r: Option<u32>)
    ensures
        r == hex_digit(c),
{
    if '0' <= c && c <= '9' {
        Some(c as u32 - '0' as u32)
    } else if 'a' <= c && c <= 'f' {
        Some(c as u32 - 'a' as u32 + 10)
    } else if 'A' <= c && c <= 'F' {
        Some(c as u32 - 'A' as u32 + 10)
    } else {
        None
    }
}

/// Reads the escape sequence whose code starts at `i`, just after a backslash.
fn parse_escaped_char(chars: &Vec<char>, i: usize) -> (r: Result<(char, usize), Error>)
    requires
        i <= chars@.len(),
    ensures
        match escape_at(chars@, i as int) {
            Ok((c, j)) => r == Ok::<(char, usize), Error>((c, j as usize)) && j <= chars@.len(),
            Err(e) => r == Err::<(char, usize), Error>(e),
        },
{
    if i >= chars.len() {
        return Err(Error::UnexpectedEndOfLine);
    }
    let c = chars[i];
    if c == 'b' {
        Ok(('\x08', i + 1))
    } else if c == 'f' {
        Ok(('\x0C', i + 1))
    } else if c == 'n' {
        Ok(('\n', i + 1))
    } else if c == 'r' {
        Ok(('\r', i + 1))
    } else if c == 't' {
        Ok(('\t', i + 1))
    } else if c == 'v' {
        Ok(('\x0B', i + 1))
    } else if c == 'x' || c == 'X' {
        if chars.len() - i <= 2 {
            return Err(Error::UnexpectedEndOfLine);
        }
        let value = if chars[i + 1] == '+' {
            hex_value(chars[i + 2])
        } else {
            match (hex_value(chars[i + 1]), hex_value(chars[i + 2])) {
                (Some(x), Some(y)) => Some(16 * x + y),
                _ => None,
            }
        };
        match value {
            Some(v) => Ok(((v as u8) as char, i + 3)),
            None => Err(Error::InvalidHexValue),
        }
    } else if c == '"' || c == '\'' || c == '\\' {
        Ok((c, i + 1))
    } else {
        Err(Error::InvalidEscapedChar)
    }
}

/// Reads the rest of a string literal from `i`, just after its opening quote.
fn string_literal(chars: &Vec<char>, i: usize) -> (r: Result<(String, usize), Error>)
    requires
        i <= chars@.len(),
    ensures
        match string_at(chars@, i as int, Seq::empty()) {
            Ok((v, j)) => r matches Ok((t, j2)) && t@ == v && j2 == j,
            Err(e) => r == Err::<(String, usize), Error>(e),
        },
{
    let mut value = String::new();
    let mut k = i;
    loop
        invariant
            i <= k <= chars@.len(),
            string_at(chars@, i as int, Seq::empty()) == string_at(chars@, k as int, value@),
        decreases chars@.len() - k,
    {
        if k >= chars.len() {
            return Err(Error::InvalidString);
        }
        let c = chars[k];
        if c == '"' {
            return Ok((value, k + 1));
        } else if c == '\\' {
            match parse_escaped_char(chars, k + 1) {
                Ok((e, j)) => {
                    push_char(&mut value, e);
                    k = j;
                },
                Err(e) => return Err(e),
            }
        } else {
            push_char(&mut value, c);
            k = k + 1;
        }
    }
}

/// The value of the digits in `from..to` in a base, if they are all decimal
/// digits, at least one, and the value fits in 16 bits.
fn radix_of(chars: &Vec<char>, from: usize, to: usize, base: u32) -> (r: Option<u16>)
    requires
        from <= to <= chars@.len(),
        base == 10 || base == 16,
    ensures
        r == radix_value(chars@.subrange(from as int, to as int), base as nat),
{
    let ghost d = chars@.subrange(from as int, to as int);
    if from == to {
        return None;
    }
    let mut acc: u32 = 0;
    let mut k = from;
    while k < to
        invariant
            from <= k <= to <= chars@.len(),
            d == chars@.subrange(from as int, to as int),
            base == 10 || base == 16,
            forall|m: int| from <= m < k ==> is_digit(chars@[m]),
            digits_value(chars@.subrange(from as int, k as int), base as nat) < 65536 ==> acc
                == digits_value(chars@.subrange(from as int, k as int), base as nat),
            digits_value(chars@.subrange(from as int, k as int), base as nat) >= 65536 ==> acc
                == 65536,
        decreases to - k,
    {
        let c = chars[k];
        if !('0' <= c && c <= '9') {
            assert(!is_digit(d[k - from]));
            return None;
        }
        let ghost prev = digits_value(chars@.subrange(from as int, k as int), base as nat);
        assert(chars@.subrange(from as int, k + 1).drop_last() =~= chars@.subrange(
            from as int,
            k as int,
        ));
        let digit = c as u32 - '0' as u32;
        let next = acc * base + digit;
        proof {
            if prev >= 65536 {
                assert(prev * base + digit >= 65536) by (nonlinear_arith)
                    requires
                        prev >= 65536,
                        base >= 10,
                ;
            }
        }
        acc = if next >= 65536 {
            65536
        } else {
            next
        };
        k = k + 1;
    }
    assert(chars@.subrange(from as int, to as int) =~= d);
    if acc >= 65536 {
        None
    } else {
        Some(acc as u16)
    }
}

/// The value of the number text in `from..to`.
fn number_of(chars: &Vec<char>, from: usize, to: usize) -> (r: Option<u16>)
    requires
        from < to <= chars@.len(),
    ensures
        r == number_value(chars@.subrange(from as int, to as int)),
{
    let ghost v = chars@.subrange(from as int, to as int);
    if to - from >= 2 && chars[from] == '0' && (chars[from + 1] == 'x' || chars[from + 1] == 'X') {
        assert(v.skip(2) =~= chars@.subrange(from + 2, to as int));
        radix_of(chars, from + 2, to, 16)
    } else if chars[from] == '+' {
        assert(v.skip(1) =~= chars@.subrange(from + 1, to as int));
        radix_of(chars, from + 1, to, 10)
    } else {
        radix_of(chars, from, to, 10)
    }
}

/// Reads the number token that starts at `i`.
fn number_token(chars: &Vec<char>, i: usize) -> (r: Result<(Option<Token>, usize), Error>)
    requires
        i < chars@.len(),
    ensures
        step_matches(r, number_at(chars@, i as int)),
{
    let n = chars.len();
    let from = if chars[i] == '0' && i + 1 < chars.len() && (chars[i + 1] == 'x' || chars[i + 1]
        == 'X') {
        i + 2
    } else {
        i + 1
    };
    let k = scan_digits_end(chars, from);
    if k < chars.len() && !(chars[k] == ' ' || chars[k] == '\t' || chars[k] == ',') {
        return Err(Error::InvalidNumber);
    }
    match number_of(chars, i, k) {
        Some(n) => Ok((Some(Token::Number(n)), k)),
        None => Err(Error::InvalidNumber),
    }
}

/// Reads the name, label or directive token that starts at `i`.
fn word_token(chars: &Vec<char>, i: usize) -> (r: Result<(Option<Token>, usize), Error>)
    requires
        i < chars@.len(),
    ensures
        step_matches(r, word_at(chars@, i as int)),
{
    let n = chars.len();
    let j = scan_word_end(chars, i + 1);
    let value = text_of(chars, i, j);
    let dot = chars[i] == '.';
    if j < chars.len() && chars[j] == ':' {
        if dot {
            Err(Error::InvalidDotCommand)
        } else {
            Ok((Some(Token::Label(value)), j + 1))
        }
    } else if dot {
        Ok((Some(Token::DotCommand(value)), j))
    } else {
        Ok((Some(Token::Identifier(value)), j))
    }
}

/// Reads the character literal that starts at `i`.
fn char_token(chars: &Vec<char>, i: usize) -> (r: Result<(Option<Token>, usize), Error>)
    requires
        i < chars@.len(),
    ensures
        step_matches(r, char_at(chars@, i as int)),
{
    let n = chars.len();
    if i + 1 >= chars.len() || chars[i + 1] == '\'' {
        return Err(Error::InvalidChar);
    }
    let (c, j) = if chars[i + 1] == '\\' {
        match parse_escaped_char(chars, i + 2) {
            Ok(r) => r,
            Err(e) => return Err(e),
        }
    } else {
        (chars[i + 1], i + 2)
    };
    if j < chars.len() && chars[j] == '\'' {
        Ok((Some(Token::Char(c)), j + 1))
    } else {
        Err(Error::InvalidChar)
    }
}

/// Takes one step of the lexer at `i`.
fn next_token(chars: &Vec<char>, i: usize) -> (r: Result<(Option<Token>, usize), Error>)
    requires
        i < chars@.len(),
    ensures
        step_matches(r, step_at(chars@, i as int)),
{
    let n = chars.len();
    let c = chars[i];
    if c == ';' {
        Ok((None, chars.len()))
    } else if c == ' ' || c == '\t' {
        Ok((None, i + 1))
    } else if c == ',' {
        Ok((Some(Token::Comma), i + 1))
    } else if c == '\'' {
        char_token(chars, i)
    } else if c == '"' {
        match string_literal(chars, i + 1) {
            Ok((v, j)) => Ok((Some(Token::String(v)), j)),
            Err(e) => Err(e),
        }
    } else if c == '-' || c == '+' || ('0' <= c && c <= '9') {
        number_token(chars, i)
    } else if ('a' <= c && c <= 'z') || ('A' <= c && c <= 'Z') || c == '_' || c == ':' || c
        == '.' {
        word_token(chars, i)
    } else {
        Err(Error::InvalidChar)
    }
}

/// Splits one source line into tokens; a semicolon starts a comment.
pub fn parse_line(line: &str) -> (r: Result<Vec<Token>, Error>)
    ensures
        match lex(line@) {
            Ok(ts) => r matches Ok(v) && token_views(v@) == ts,
            Err(e) => r == Err::<Vec<Token>, Error>(e),
        },
{
    let chars = chars_of(line);
    let mut tokens: Vec<Token> = Vec::new();
    let mut i: usize = 0;
    assert(token_views(tokens@) =~= Seq::<TokenView>::empty());
    while i < chars.len()
        invariant
            chars@ == line@,
            i <= chars@.len(),
            lex(line@) == lex_from(line@, i as int, token_views(tokens@)),
        decreases chars@.len() - i,
    {
        proof {
            lemma_step_advances(chars@, i as int);
        }
        match next_token(&chars, i) {
            Ok((t, j)) => {
                if let Some(t) = t {
                    let ghost before = tokens@;
                    tokens.push(t);
                    assert(token_views(tokens@) =~= token_views(before).push(t@));
                }
                i = j;
            },
            Err(e) => return Err(e),
        }
    }
    Ok(tokens)
}

} // verus!
