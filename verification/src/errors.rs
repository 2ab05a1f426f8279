//! The error model: a structured diagnostic carrying a message and the
//! exact row and column of the offending input.

use vstd::prelude::*;
use vstd::string::StringExecFns;

verus! {

/// The closed set of failures the lexer can report.
#[derive(Clone, Copy, Debug, PartialEq, Eq, Structural)]
pub enum ErrorKind {
    /// A string literal whose closing quote is missing at end of input.
    UnterminatedString,
    /// A block comment whose closing marker is missing at end of input.
    UnterminatedBlockComment,
    /// A character that no classifier rule accepts.
    InvalidCharacter,
    /// A numeric shape that no rule accepts, such as a stray decimal
    /// point followed by digits.
    MalformedNumericLiteral,
}

/// The canonical message text for each error kind.
pub open spec fn spec_message_of(kind: ErrorKind) -> Seq<char> {
    match kind {
        ErrorKind::UnterminatedString => "unterminated string literal"@,
        ErrorKind::UnterminatedBlockComment => "unterminated block comment"@,
        ErrorKind::InvalidCharacter => "invalid character"@,
        ErrorKind::MalformedNumericLiteral => "malformed numeric literal"@,
    }
}

/// Builds the canonical message for an error kind.
pub fn message_of(kind: ErrorKind) -> (m: String)
    ensures
        m@ == spec_message_of(kind),
{
    match kind {
        ErrorKind::UnterminatedString => String::from_str("unterminated string literal"),
        ErrorKind::UnterminatedBlockComment => String::from_str("unterminated block comment"),
        ErrorKind::InvalidCharacter => String::from_str("invalid character"),
        ErrorKind::MalformedNumericLiteral => String::from_str("malformed numeric literal"),
    }
}

/// Relies on `String::push` of std: appending a character to a string
/// appends exactly that one character to its text.
pub assume_specification[ String::push ](s: &mut String, ch: char)
    ensures
        final(s)@ == old(s)@.push(ch),
;

/// The characters of the offending bytes, one character per byte.
pub open spec fn chars_of_bytes(bs: Seq<u8>) -> Seq<char> {
    bs.map_values(|b: u8| b as char)
}

/// The full message text of a failure: the kind's canonical text, a
/// separator, and the offending bytes themselves.
pub open spec fn spec_error_message(kind: ErrorKind, offending: Seq<u8>) -> Seq<char> {
    spec_message_of(kind) + ": "@ + chars_of_bytes(offending)
}

/// Builds the message for a failure whose offending bytes are
/// `source[st..e]`: the kind's canonical text followed by those bytes.
pub fn error_message(kind: ErrorKind, source: &[u8], st: usize, e: usize) -> (m: String)
    requires
        st <= e <= source@.len(),
    ensures
        m@ == spec_error_message(kind, source@.subrange(st as int, e as int)),
{
    let mut m = message_of(kind);
    m.append(": ");
    proof {
        assert(m@ =~= spec_message_of(kind) + ": "@ + chars_of_bytes(
            source@.subrange(st as int, st as int),
        ));
    }
    let mut k: usize = st;
    while k < e
        invariant
            st <= k <= e <= source@.len(),
            m@ == spec_message_of(kind) + ": "@ + chars_of_bytes(
                source@.subrange(st as int, k as int),
            ),
        decreases e - k,
    {
        m.push(source[k] as char);
        proof {
            assert(m@ =~= spec_message_of(kind) + ": "@ + chars_of_bytes(
                source@.subrange(st as int, k + 1),
            ));
        }
        k = k + 1;
    }
    m
}

/// A diagnostic produced at the point of failure. Immutable once built;
/// `row` and `column` are those of the first offending character.
#[derive(Debug)]
pub struct LexerError {
    message: String,
    row: usize,
    column: usize,
}

impl LexerError {
    /// The message text carried by this diagnostic.
    pub closed spec fn spec_message(&self) -> Seq<char> {
        self.message@
    }

    /// The 1-based row of the offending character.
    pub closed spec fn spec_row(&self) -> usize {
        self.row
    }

    /// The 1-based column of the offending character.
    pub closed spec fn spec_column(&self) -> usize {
        self.column
    }

    pub fn new(message: String, row: usize, column: usize) -> (e: Self)
        ensures
            e.spec_message() == message@,
            e.spec_row() == row,
            e.spec_column() == column,
    {
        Self { message, row, column }
    }

    pub fn message(&self) -> (m: &String)
        ensures
            m@ == self.spec_message(),
    {
        &self.message
    }

    pub fn row(&self) -> (r: usize)
        ensures
            r == self.spec_row(),
    {
        self.row
    }

    pub fn column(&self) -> (c: usize)
        ensures
            c == self.spec_column(),
    {
        self.column
    }
}

} // verus!
