//! The token kind classifier: the closed set of token kinds, the
//! reserved-word table, and the rules that decide which kind starts at a
//! given offset and how many bytes it consumes.
//!
//! All rules follow a longest-match-first policy: `==` is one operator,
//! never two; a keyword is recognised only after the full identifier has
//! been scanned.

use vstd::prelude::*;
use crate::errors::ErrorKind;

verus! {

/// A reserved word of the language.
#[derive(Clone, Copy, Debug, PartialEq, Eq, Structural)]
pub enum Keyword {
    If,
    Else,
    While,
    Let,
    Fn,
    Return,
    True,
    False,
}

/// An operator symbol, single- or double-character.
#[derive(Clone, Copy, Debug, PartialEq, Eq, Structural)]
pub enum Operator {
    /// `=`
    Assign,
    /// `==`
    EqEq,
    /// `!=`
    NotEq,
    /// `<`
    Lt,
    /// `<=`
    Le,
    /// `>`
    Gt,
    /// `>=`
    Ge,
    /// `&&`
    AndAnd,
    /// `||`
    OrOr,
    /// `!`
    Not,
    /// `+`
    Plus,
    /// `-`
    Minus,
    /// `*`
    Star,
    /// `/`
    Slash,
    /// `%`
    Percent,
}

/// A punctuation symbol.
#[derive(Clone, Copy, Debug, PartialEq, Eq, Structural)]
pub enum Punctuation {
    /// `(`
    LParen,
    /// `)`
    RParen,
    /// `{`
    LBrace,
    /// `}`
    RBrace,
    /// `[`
    LBracket,
    /// `]`
    RBracket,
    /// `,`
    Comma,
    /// `;`
    Semicolon,
    /// `:`
    Colon,
    /// `.`
    Dot,
}

/// The category of a token. Exactly one variant per token; no overlap.
#[derive(Clone, Copy, Debug, PartialEq, Eq, Structural)]
pub enum TokenKind {
    Keyword(Keyword),
    Identifier,
    IntegerLiteral,
    FloatLiteral,
    StringLiteral,
    Operator(Operator),
    Punctuation(Punctuation),
    Comment,
    Whitespace,
    EndOfInput,
}

/// Space, horizontal tab, carriage return or line feed.
pub open spec fn is_whitespace(c: u8) -> bool {
    c == 32 || c == 9 || c == 13 || c == 10
}

/// An ASCII decimal digit.
pub open spec fn is_digit(c: u8) -> bool {
    48 <= c <= 57
}

/// An ASCII letter or underscore: what may open an identifier.
pub open spec fn is_ident_start(c: u8) -> bool {
    (65 <= c <= 90) || (97 <= c <= 122) || c == 95
}

/// What may continue an identifier.
pub open spec fn is_ident_continue(c: u8) -> bool {
    is_ident_start(c) || is_digit(c)
}

/// The reserved-word table: maps the bytes of a scanned identifier to
/// the keyword it spells, if any. Byte values are ASCII codes; the
/// words are `if`, `else`, `while`, `let`, `fn`, `return`, `true` and
/// `false`.
pub open spec fn keyword_of(w: Seq<u8>) -> Option<Keyword> {
    if w.len() == 2 && w[0] == 105 && w[1] == 102 {
        Some(Keyword::If)
    } else if w.len() == 4 && w[0] == 101 && w[1] == 108 && w[2] == 115 && w[3] == 101 {
        Some(Keyword::Else)
    } else if w.len() == 5 && w[0] == 119 && w[1] == 104 && w[2] == 105 && w[3] == 108 && w[4]
        == 101 {
        Some(Keyword::While)
    } else if w.len() == 3 && w[0] == 108 && w[1] == 101 && w[2] == 116 {
        Some(Keyword::Let)
    } else if w.len() == 2 && w[0] == 102 && w[1] == 110 {
        Some(Keyword::Fn)
    } else if w.len() == 6 && w[0] == 114 && w[1] == 101 && w[2] == 116 && w[3] == 117 && w[4]
        == 114 && w[5] == 110 {
        Some(Keyword::Return)
    } else if w.len() == 4 && w[0] == 116 && w[1] == 114 && w[2] == 117 && w[3] == 101 {
        Some(Keyword::True)
    } else if w.len() == 5 && w[0] == 102 && w[1] == 97 && w[2] == 108 && w[3] == 115 && w[4]
        == 101 {
        Some(Keyword::False)
    } else {
        None
    }
}

/// The two-byte operator table: `==`, `!=`, `<=`, `>=`, `&&`, `||`.
pub open spec fn operator2_of(a: u8, b: u8) -> Option<Operator> {
    if a == 61 && b == 61 {
        Some(Operator::EqEq)
    } else if a == 33 && b == 61 {
        Some(Operator::NotEq)
    } else if a == 60 && b == 61 {
        Some(Operator::Le)
    } else if a == 62 && b == 61 {
        Some(Operator::Ge)
    } else if a == 38 && b == 38 {
        Some(Operator::AndAnd)
    } else if a == 124 && b == 124 {
        Some(Operator::OrOr)
    } else {
        None
    }
}

/// The one-byte operator table: `=`, `!`, `<`, `>`, `+`, `-`, `*`, `/`, `%`.
pub open spec fn operator1_of(a: u8) -> Option<Operator> {
    if a == 61 {
        Some(Operator::Assign)
    } else if a == 33 {
        Some(Operator::Not)
    } else if a == 60 {
        Some(Operator::Lt)
    } else if a == 62 {
        Some(Operator::Gt)
    } else if a == 43 {
        Some(Operator::Plus)
    } else if a == 45 {
        Some(Operator::Minus)
    } else if a == 42 {
        Some(Operator::Star)
    } else if a == 47 {
        Some(Operator::Slash)
    } else if a == 37 {
        Some(Operator::Percent)
    } else {
        None
    }
}

/// The punctuation table: `(`, `)`, `{`, `}`, `[`, `]`, `,`, `;`, `:`, `.`.
pub open spec fn punctuation_of(a: u8) -> Option<Punctuation> {
    if a == 40 {
        Some(Punctuation::LParen)
    } else if a == 41 {
        Some(Punctuation::RParen)
    } else if a == 123 {
        Some(Punctuation::LBrace)
    } else if a == 125 {
        Some(Punctuation::RBrace)
    } else if a == 91 {
        Some(Punctuation::LBracket)
    } else if a == 93 {
        Some(Punctuation::RBracket)
    } else if a == 44 {
        Some(Punctuation::Comma)
    } else if a == 59 {
        Some(Punctuation::Semicolon)
    } else if a == 58 {
        Some(Punctuation::Colon)
    } else if a == 46 {
        Some(Punctuation::Dot)
    } else {
        None
    }
}

/// The end of the whitespace run that starts at `i`: the first offset at
/// or after `i` holding a non-whitespace byte, or the end of input.
pub open spec fn whitespace_end(s: Seq<u8>, i: int) -> int
    decreases s.len() - i,
{
    if 0 <= i < s.len() && is_whitespace(s[i]) {
        whitespace_end(s, i + 1)
    } else {
        i
    }
}

/// The end of the digit run that starts at `i`.
pub open spec fn digit_end(s: Seq<u8>, i: int) -> int
    decreases s.len() - i,
{
    if 0 <= i < s.len() && is_digit(s[i]) {
        digit_end(s, i + 1)
    } else {
        i
    }
}

/// The end of the identifier run that starts at `i`.
pub open spec fn ident_end(s: Seq<u8>, i: int) -> int
    decreases s.len() - i,
{
    if 0 <= i < s.len() && is_ident_continue(s[i]) {
        ident_end(s, i + 1)
    } else {
        i
    }
}

/// The end of a line comment whose text starts at `i`: the offset of the
/// terminating line feed, or the end of input. The line feed itself is
/// not part of the comment.
pub open spec fn line_comment_end(s: Seq<u8>, i: int) -> int
    decreases s.len() - i,
{
    if 0 <= i < s.len() && s[i] != 10 {
        line_comment_end(s, i + 1)
    } else {
        i
    }
}

/// The offset just past the `*/` that closes a block comment whose text
/// starts at `i`, or `None` if the input ends first.
pub open spec fn block_comment_end(s: Seq<u8>, i: int) -> Option<int>
    decreases s.len() - i,
{
    if i + 2 > s.len() || i < 0 {
        None
    } else if s[i] == 42 && s[i + 1] == 47 {
        Some(i + 2)
    } else {
        block_comment_end(s, i + 1)
    }
}

/// The offset just past the unescaped `"` that closes a string literal
/// whose body starts at `i`, or `None` if the input ends first. A
/// backslash escapes the byte that follows it.
pub open spec fn string_end(s: Seq<u8>, i: int) -> Option<int>
    decreases s.len() - i,
{
    if i < 0 || i >= s.len() {
        None
    } else if s[i] == 34 {
        Some(i + 1)
    } else if s[i] == 92 {
        if i + 1 < s.len() {
            string_end(s, i + 2)
        } else {
            None
        }
    } else {
        string_end(s, i + 1)
    }
}

/// What the classifier decides at one offset: either a token of some
/// kind ending at the given offset, or a failure of some kind whose
/// offending input extends to the given offset.
pub enum Scan {
    Token(TokenKind, int),
    Failure(ErrorKind, int),
}

/// Where a scanned numeric literal ends and which kind it has: a digit
/// run, then optionally one decimal point that is followed by at least
/// one more digit. A second decimal point terminates the number, and
/// the grammar fixes that there is no exponent notation.
pub open spec fn number_scan(s: Seq<u8>, i: int) -> (TokenKind, int) {
    let d = digit_end(s, i);
    if d < s.len() && s[d] == 46 && d + 1 < s.len() && is_digit(s[d + 1]) {
        (TokenKind::FloatLiteral, digit_end(s, d + 1))
    } else {
        (TokenKind::IntegerLiteral, d)
    }
}

/// The classifier: given the byte at offset `i` and read-only lookahead
/// into the rest of the buffer, the token kind that starts there and the
/// offset just past it — or the failure that starts there. Ambiguity is
/// resolved longest-match-first: comment markers before the `/`
/// operator, two-byte operators before one-byte ones, and keywords only
/// after the whole identifier has been scanned.
pub open spec fn spec_scan(s: Seq<u8>, i: int) -> Scan
    recommends
        0 <= i < s.len(),
{
    let c = s[i];
    if is_whitespace(c) {
        Scan::Token(TokenKind::Whitespace, whitespace_end(s, i))
    } else if c == 47 && i + 1 < s.len() && s[i + 1] == 47 {
        // `//`: a line comment, up to but not including the line feed
        Scan::Token(TokenKind::Comment, line_comment_end(s, i + 2))
    } else if c == 47 && i + 1 < s.len() && s[i + 1] == 42 {
        // `/*`: a block comment, up to and including `*/`
        match block_comment_end(s, i + 2) {
            Some(e) => Scan::Token(TokenKind::Comment, e),
            None => Scan::Failure(ErrorKind::UnterminatedBlockComment, s.len() as int),
        }
    } else if is_ident_start(c) {
        let e = ident_end(s, i);
        match keyword_of(s.subrange(i, e)) {
            Some(k) => Scan::Token(TokenKind::Keyword(k), e),
            None => Scan::Token(TokenKind::Identifier, e),
        }
    } else if is_digit(c) {
        let (k, e) = number_scan(s, i);
        Scan::Token(k, e)
    } else if c == 34 {
        // `"`: a string literal
        match string_end(s, i + 1) {
            Some(e) => Scan::Token(TokenKind::StringLiteral, e),
            None => Scan::Failure(ErrorKind::UnterminatedString, s.len() as int),
        }
    } else if c == 46 && i + 1 < s.len() && is_digit(s[i + 1]) {
        // a stray decimal point opening a digit run: not a number shape
        Scan::Failure(ErrorKind::MalformedNumericLiteral, digit_end(s, i + 1))
    } else if i + 1 < s.len() && operator2_of(c, s[i + 1]) is Some {
        Scan::Token(TokenKind::Operator(operator2_of(c, s[i + 1]).unwrap()), i + 2)
    } else if operator1_of(c) is Some {
        Scan::Token(TokenKind::Operator(operator1_of(c).unwrap()), i + 1)
    } else if punctuation_of(c) is Some {
        Scan::Token(TokenKind::Punctuation(punctuation_of(c).unwrap()), i + 1)
    } else {
        Scan::Failure(ErrorKind::InvalidCharacter, i + 1)
    }
}

/// A whitespace run ends no earlier than it starts and within the input.
pub proof fn lemma_whitespace_end_bounds(s: Seq<u8>, i: int)
    requires
        0 <= i <= s.len(),
    ensures
        i <= whitespace_end(s, i) <= s.len(),
    decreases s.len() - i,
{
    if i < s.len() && is_whitespace(s[i]) {
        lemma_whitespace_end_bounds(s, i + 1);
    }
}

/// A digit run ends no earlier than it starts and within the input.
pub proof fn lemma_digit_end_bounds(s: Seq<u8>, i: int)
    requires
        0 <= i <= s.len(),
    ensures
        i <= digit_end(s, i) <= s.len(),
    decreases s.len() - i,
{
    if i < s.len() && is_digit(s[i]) {
        lemma_digit_end_bounds(s, i + 1);
    }
}

/// An identifier run ends no earlier than it starts and within the input.
pub proof fn lemma_ident_end_bounds(s: Seq<u8>, i: int)
    requires
        0 <= i <= s.len(),
    ensures
        i <= ident_end(s, i) <= s.len(),
    decreases s.len() - i,
{
    if i < s.len() && is_ident_continue(s[i]) {
        lemma_ident_end_bounds(s, i + 1);
    }
}

/// A line comment ends no earlier than it starts and within the input.
pub proof fn lemma_line_comment_end_bounds(s: Seq<u8>, i: int)
    requires
        0 <= i <= s.len(),
    ensures
        i <= line_comment_end(s, i) <= s.len(),
    decreases s.len() - i,
{
    if i < s.len() && s[i] != 10 {
        lemma_line_comment_end_bounds(s, i + 1);
    }
}

/// A closed block comment ends past its opening and within the input.
pub proof fn lemma_block_comment_end_bounds(s: Seq<u8>, i: int)
    requires
        0 <= i <= s.len(),
        block_comment_end(s, i) is Some,
    ensures
        i + 2 <= block_comment_end(s, i).unwrap() <= s.len(),
    decreases s.len() - i,
{
    if i + 2 > s.len() {
    } else if s[i] == 42 && s[i + 1] == 47 {
    } else {
        lemma_block_comment_end_bounds(s, i + 1);
    }
}

/// A closed string literal ends past its body start and within the input.
pub proof fn lemma_string_end_bounds(s: Seq<u8>, i: int)
    requires
        0 <= i <= s.len(),
        string_end(s, i) is Some,
    ensures
        i + 1 <= string_end(s, i).unwrap() <= s.len(),
    decreases s.len() - i,
{
    if i >= s.len() {
    } else if s[i] == 34 {
    } else if s[i] == 92 {
        if i + 1 < s.len() {
            lemma_string_end_bounds(s, i + 2);
        }
    } else {
        lemma_string_end_bounds(s, i + 1);
    }
}

/// Whatever the classifier decides at a valid offset, it consumes at
/// least one byte and never reads past the end of input.
pub proof fn lemma_scan_bounds(s: Seq<u8>, i: int)
    requires
        0 <= i < s.len(),
    ensures
        match spec_scan(s, i) {
            Scan::Token(_, e) => i < e <= s.len(),
            Scan::Failure(_, e) => i < e <= s.len(),
        },
{
    let c = s[i];
    if is_whitespace(c) {
        lemma_whitespace_end_bounds(s, i + 1);
    } else if c == 47 && i + 1 < s.len() && s[i + 1] == 47 {
        lemma_line_comment_end_bounds(s, i + 2);
    } else if c == 47 && i + 1 < s.len() && s[i + 1] == 42 {
        if block_comment_end(s, i + 2) is Some {
            lemma_block_comment_end_bounds(s, i + 2);
        }
    } else if is_ident_start(c) {
        lemma_ident_end_bounds(s, i + 1);
    } else if is_digit(c) {
        lemma_digit_end_bounds(s, i + 1);
        let d = digit_end(s, i);
        if d < s.len() && s[d] == 46 && d + 1 < s.len() && is_digit(s[d + 1]) {
            lemma_digit_end_bounds(s, d + 2);
        }
    } else if c == 34 {
        if string_end(s, i + 1) is Some {
            lemma_string_end_bounds(s, i + 1);
        }
    } else if c == 46 && i + 1 < s.len() && is_digit(s[i + 1]) {
        lemma_digit_end_bounds(s, i + 2);
    } else {
    }
}

/// A valid identifier that matches a reserved word exactly is
/// classified as that keyword, never as a plain identifier: the whole
/// identifier run is scanned first and then held against the
/// reserved-word table.
pub proof fn lemma_keyword_beats_identifier(s: Seq<u8>, i: int)
    requires
        0 <= i < s.len(),
        is_ident_start(s[i]),
        keyword_of(s.subrange(i, ident_end(s, i))) is Some,
    ensures
        spec_scan(s, i) == Scan::Token(
            TokenKind::Keyword(keyword_of(s.subrange(i, ident_end(s, i))).unwrap()),
            ident_end(s, i),
        ),
{
}

/// Longest match for operators: where a two-byte operator such as `==`
/// stands, the classifier forms the one two-byte token ending past
/// both bytes, never a one-byte token for the first byte alone.
pub proof fn lemma_longest_match_operator(s: Seq<u8>, i: int)
    requires
        0 <= i,
        i + 1 < s.len(),
        operator2_of(s[i], s[i + 1]) is Some,
    ensures
        spec_scan(s, i) == Scan::Token(
            TokenKind::Operator(operator2_of(s[i], s[i + 1]).unwrap()),
            i + 2,
        ),
{
}

/// Executable test for [`is_whitespace`].
pub fn is_whitespace_byte(c: u8) -> (b: bool)
    ensures
        b == is_whitespace(c),
{
    c == 32 || c == 9 || c == 13 || c == 10
}

/// Executable test for [`is_digit`].
pub fn is_digit_byte(c: u8) -> (b: bool)
    ensures
        b == is_digit(c),
{
    48 <= c && c <= 57
}

/// Executable test for [`is_ident_start`].
pub fn is_ident_start_byte(c: u8) -> (b: bool)
    ensures
        b == is_ident_start(c),
{
    (65 <= c && c <= 90) || (97 <= c && c <= 122) || c == 95
}

/// Executable test for [`is_ident_continue`].
pub fn is_ident_continue_byte(c: u8) -> (b: bool)
    ensures
        b == is_ident_continue(c),
{
    is_ident_start_byte(c) || is_digit_byte(c)
}

/// Scans past the whitespace run starting at `i`.
pub fn scan_whitespace(s: &[u8], i: usize) -> (e: usize)
    requires
        i <= s@.len(),
    ensures
        i <= e <= s@.len(),
        e as int == whitespace_end(s@, i as int),
{
    let n = s.len();
    let mut j = i;
    while j < n && is_whitespace_byte(s[j])
        invariant
            i <= j <= n,
            n == s@.len(),
            whitespace_end(s@, i as int) == whitespace_end(s@, j as int),
        decreases n - j,
    {
        j = j + 1;
    }
    j
}

/// Scans past the digit run starting at `i`.
pub fn scan_digits(s: &[u8], i: usize) -> (e: usize)
    requires
        i <= s@.len(),
    ensures
        i <= e <= s@.len(),
        e as int == digit_end(s@, i as int),
{
    let n = s.len();
    let mut j = i;
    while j < n && is_digit_byte(s[j])
        invariant
            i <= j <= n,
            n == s@.len(),
            digit_end(s@, i as int) == digit_end(s@, j as int),
        decreases n - j,
    {
        j = j + 1;
    }
    j
}

/// Scans past the identifier run starting at `i`.
pub fn scan_ident(s: &[u8], i: usize) -> (e: usize)
    requires
        i <= s@.len(),
    ensures
        i <= e <= s@.len(),
        e as int == ident_end(s@, i as int),
{
    let n = s.len();
    let mut j = i;
    while j < n && is_ident_continue_byte(s[j])
        invariant
            i <= j <= n,
            n == s@.len(),
            ident_end(s@, i as int) == ident_end(s@, j as int),
        decreases n - j,
    {
        j = j + 1;
    }
    j
}

/// Scans up to the line feed that ends a line comment whose text starts
/// at `i`, or to end of input.
pub fn scan_line_comment(s: &[u8], i: usize) -> (e: usize)
    requires
        i <= s@.len(),
    ensures
        i <= e <= s@.len(),
        e as int == line_comment_end(s@, i as int),
{
    let n = s.len();
    let mut j = i;
    while j < n && s[j] != 10
        invariant
            i <= j <= n,
            n == s@.len(),
            line_comment_end(s@, i as int) == line_comment_end(s@, j as int),
        decreases n - j,
    {
        j = j + 1;
    }
    j
}

/// Scans for the `*/` that closes a block comment whose text starts at
/// `i`; `None` if the input ends first.
pub fn scan_block_comment(s: &[u8], i: usize) -> (e: Option<usize>)
    requires
        i <= s@.len(),
    ensures
        match e {
            Some(e) => e as int == block_comment_end(s@, i as int).unwrap() && block_comment_end(
                s@,
                i as int,
            ) is Some,
            None => block_comment_end(s@, i as int) is None,
        },
{
    let n = s.len();
    let mut j = i;
    while j < n && j + 1 < n && !(s[j] == 42 && s[j + 1] == 47)
        invariant
            i <= j <= n,
            n == s@.len(),
            block_comment_end(s@, i as int) == block_comment_end(s@, j as int),
        decreases n - j,
    {
        j = j + 1;
    }
    if j < n && j + 1 < n {
        Some(j + 2)
    } else {
        None
    }
}

/// Scans for the unescaped `"` that closes a string literal whose body
/// starts at `i`; `None` if the input ends first.
pub fn scan_string(s: &[u8], i: usize) -> (e: Option<usize>)
    requires
        i <= s@.len(),
    ensures
        match e {
            Some(e) => e as int == string_end(s@, i as int).unwrap() && string_end(
                s@,
                i as int,
            ) is Some,
            None => string_end(s@, i as int) is None,
        },
{
    let n = s.len();
    let mut j = i;
    loop
        invariant
            i <= j <= n,
            n == s@.len(),
            string_end(s@, i as int) == string_end(s@, j as int),
        ensures
            j <= n,
            string_end(s@, i as int) == string_end(s@, j as int),
            j < n ==> s@[j as int] == 34,
        decreases n - j,
    {
        if j >= n {
            break ;
        }
        if s[j] == 34 {
            break ;
        }
        if s[j] == 92 {
            if j + 1 < n {
                j = j + 2;
            } else {
                j = n;
                break ;
            }
        } else {
            j = j + 1;
        }
    }
    if j < n {
        Some(j + 1)
    } else {
        None
    }
}

/// Looks the identifier `s[st..e]` up in the reserved-word table.
pub fn keyword_lookup(s: &[u8], st: usize, e: usize) -> (k: Option<Keyword>)
    requires
        st <= e <= s@.len(),
    ensures
        k == keyword_of(s@.subrange(st as int, e as int)),
{
    let n = e - st;
    let k = if n == 2 && s[st] == 105 && s[st + 1] == 102 {
        Some(Keyword::If)
    } else if n == 4 && s[st] == 101 && s[st + 1] == 108 && s[st + 2] == 115 && s[st + 3] == 101 {
        Some(Keyword::Else)
    } else if n == 5 && s[st] == 119 && s[st + 1] == 104 && s[st + 2] == 105 && s[st + 3] == 108
        && s[st + 4] == 101 {
        Some(Keyword::While)
    } else if n == 3 && s[st] == 108 && s[st + 1] == 101 && s[st + 2] == 116 {
        Some(Keyword::Let)
    } else if n == 2 && s[st] == 102 && s[st + 1] == 110 {
        Some(Keyword::Fn)
    } else if n == 6 && s[st] == 114 && s[st + 1] == 101 && s[st + 2] == 116 && s[st + 3] == 117
        && s[st + 4] == 114 && s[st + 5] == 110 {
        Some(Keyword::Return)
    } else if n == 4 && s[st] == 116 && s[st + 1] == 114 && s[st + 2] == 117 && s[st + 3] == 101 {
        Some(Keyword::True)
    } else if n == 5 && s[st] == 102 && s[st + 1] == 97 && s[st + 2] == 108 && s[st + 3] == 115
        && s[st + 4] == 101 {
        Some(Keyword::False)
    } else {
        None
    };
    k
}

/// Looks a byte pair up in the two-byte operator table.
pub fn operator2_lookup(a: u8, b: u8) -> (o: Option<Operator>)
    ensures
        o == operator2_of(a, b),
{
    if a == 61 && b == 61 {
        Some(Operator::EqEq)
    } else if a == 33 && b == 61 {
        Some(Operator::NotEq)
    } else if a == 60 && b == 61 {
        Some(Operator::Le)
    } else if a == 62 && b == 61 {
        Some(Operator::Ge)
    } else if a == 38 && b == 38 {
        Some(Operator::AndAnd)
    } else if a == 124 && b == 124 {
        Some(Operator::OrOr)
    } else {
        None
    }
}

/// Looks a byte up in the one-byte operator table.
pub fn operator1_lookup(a: u8) -> (o: Option<Operator>)
    ensures
        o == operator1_of(a),
{
    if a == 61 {
        Some(Operator::Assign)
    } else if a == 33 {
        Some(Operator::Not)
    } else if a == 60 {
        Some(Operator::Lt)
    } else if a == 62 {
        Some(Operator::Gt)
    } else if a == 43 {
        Some(Operator::Plus)
    } else if a == 45 {
        Some(Operator::Minus)
    } else if a == 42 {
        Some(Operator::Star)
    } else if a == 47 {
        Some(Operator::Slash)
    } else if a == 37 {
        Some(Operator::Percent)
    } else {
        None
    }
}

/// Looks a byte up in the punctuation table.
pub fn punctuation_lookup(a: u8) -> (p: Option<Punctuation>)
    ensures
        p == punctuation_of(a),
{
    if a == 40 {
        Some(Punctuation::LParen)
    } else if a == 41 {
        Some(Punctuation::RParen)
    } else if a == 123 {
        Some(Punctuation::LBrace)
    } else if a == 125 {
        Some(Punctuation::RBrace)
    } else if a == 91 {
        Some(Punctuation::LBracket)
    } else if a == 93 {
        Some(Punctuation::RBracket)
    } else if a == 44 {
        Some(Punctuation::Comma)
    } else if a == 59 {
        Some(Punctuation::Semicolon)
    } else if a == 58 {
        Some(Punctuation::Colon)
    } else if a == 46 {
        Some(Punctuation::Dot)
    } else {
        None
    }
}

/// The classifier's executable decision at one offset.
pub enum ScanResult {
    /// A token of this kind, ending at this offset.
    Token(TokenKind, usize),
    /// A failure of this kind, whose offending input ends at this offset.
    Failure(ErrorKind, usize),
}

impl ScanResult {
    /// The decision this result stands for.
    pub open spec fn as_scan(self) -> Scan {
        match self {
            ScanResult::Token(k, e) => Scan::Token(k, e as int),
            ScanResult::Failure(k, e) => Scan::Failure(k, e as int),
        }
    }
}

/// Runs the classifier at offset `i`: exactly the decision of
/// [`spec_scan`], with the consumed extent within the input.
pub fn scan(s: &[u8], i: usize) -> (r: ScanResult)
    requires
        i < s@.len(),
    ensures
        r.as_scan() == spec_scan(s@, i as int),
        match r {
            ScanResult::Token(_, e) => i < e <= s@.len(),
            ScanResult::Failure(_, e) => i < e <= s@.len(),
        },
{
    proof {
        lemma_scan_bounds(s@, i as int);
    }
    let n = s.len();
    let c = s[i];
    if is_whitespace_byte(c) {
        ScanResult::Token(TokenKind::Whitespace, scan_whitespace(s, i))
    } else if c == 47 && i + 1 < n && s[i + 1] == 47 {
        ScanResult::Token(TokenKind::Comment, scan_line_comment(s, i + 2))
    } else if c == 47 && i + 1 < n && s[i + 1] == 42 {
        match scan_block_comment(s, i + 2) {
            Some(e) => ScanResult::Token(TokenKind::Comment, e),
            None => ScanResult::Failure(ErrorKind::UnterminatedBlockComment, n),
        }
    } else if is_ident_start_byte(c) {
        let e = scan_ident(s, i);
        match keyword_lookup(s, i, e) {
            Some(k) => ScanResult::Token(TokenKind::Keyword(k), e),
            None => ScanResult::Token(TokenKind::Identifier, e),
        }
    } else if is_digit_byte(c) {
        let d = scan_digits(s, i);
        if d < n && s[d] == 46 && d + 1 < n && is_digit_byte(s[d + 1]) {
            ScanResult::Token(TokenKind::FloatLiteral, scan_digits(s, d + 1))
        } else {
            ScanResult::Token(TokenKind::IntegerLiteral, d)
        }
    } else if c == 34 {
        match scan_string(s, i + 1) {
            Some(e) => ScanResult::Token(TokenKind::StringLiteral, e),
            None => ScanResult::Failure(ErrorKind::UnterminatedString, n),
        }
    } else if c == 46 && i + 1 < n && is_digit_byte(s[i + 1]) {
        ScanResult::Failure(ErrorKind::MalformedNumericLiteral, scan_digits(s, i + 1))
    } else if i + 1 < n && operator2_lookup(c, s[i + 1]).is_some() {
        let o = operator2_lookup(c, s[i + 1]);
        ScanResult::Token(TokenKind::Operator(o.unwrap()), i + 2)
    } else if operator1_lookup(c).is_some() {
        ScanResult::Token(TokenKind::Operator(operator1_lookup(c).unwrap()), i + 1)
    } else if punctuation_lookup(c).is_some() {
        ScanResult::Token(TokenKind::Punctuation(punctuation_lookup(c).unwrap()), i + 1)
    } else {
        ScanResult::Failure(ErrorKind::InvalidCharacter, i + 1)
    }
}

} // verus!
