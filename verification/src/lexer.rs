//! The lexer engine: drives the scan loop over a borrowed byte buffer,
//! skips whitespace and (unless retained) comments, consumes the bytes
//! of each token while tracking row and column, and yields classified
//! tokens or diagnostics one at a time.

use vstd::prelude::*;
use crate::errors::ErrorKind;
use crate::errors::LexerError;
use crate::errors::error_message;
use crate::errors::spec_error_message;
use crate::kinds::Scan;
use crate::kinds::ScanResult;
use crate::kinds::TokenKind;
use crate::kinds::is_whitespace;
use crate::kinds::lemma_scan_bounds;
use crate::kinds::scan;
use crate::kinds::spec_scan;
use crate::kinds::string_end;
use crate::kinds::whitespace_end;
use crate::position::Position;
use crate::position::lemma_position_bounds;
use crate::position::position_at;
use crate::position::step;

verus! {

/// A classified piece of the input. Immutable once produced; `row` and
/// `column` are those of the first byte of the lexeme.
#[derive(Clone, Debug, PartialEq, Eq)]
pub struct Token {
    pub kind: TokenKind,
    pub lexeme: Vec<u8>,
    pub row: usize,
    pub column: usize,
}

impl Token {
    /// This token reports the kind, the bytes and the starting position
    /// of `s[st..e]`.
    pub open spec fn is_token_for(self, s: Seq<u8>, k: TokenKind, st: int, e: int) -> bool {
        &&& self.kind == k
        &&& self.lexeme@ == s.subrange(st, e)
        &&& self.row as int == position_at(s, st).row
        &&& self.column as int == position_at(s, st).column
    }

    /// This token is the end-of-input token for position `at` of `s`:
    /// kind `EndOfInput`, an empty lexeme, and that position.
    pub open spec fn is_end_of_input_at(self, s: Seq<u8>, at: int) -> bool {
        &&& self.kind is EndOfInput
        &&& self.lexeme@ == Seq::<u8>::empty()
        &&& self.row as int == position_at(s, at).row
        &&& self.column as int == position_at(s, at).column
    }
}

/// This diagnostic carries the message for a failure of kind `k` whose
/// offending bytes are `s[st..e]` — the kind's canonical text followed
/// by those bytes — and the position of offset `st` in `s`.
pub open spec fn error_reports(er: LexerError, s: Seq<u8>, k: ErrorKind, st: int, e: int) -> bool {
    &&& er.spec_message() == spec_error_message(k, s.subrange(st, e))
    &&& er.spec_row() as int == position_at(s, st).row
    &&& er.spec_column() as int == position_at(s, st).column
}

/// What one engine step yields once whitespace and skipped comments are
/// out of the way: the end of input, a token spanning `[st, e)`, or a
/// failure starting at `st` whose offending input extends to `e`.
pub enum Outcome {
    EndOfInput,
    Token(TokenKind, int, int),
    Failure(ErrorKind, int, int),
}

/// The engine's decision when asked for the next token at offset `i`:
/// repeatedly classify, stepping over whitespace runs and — unless
/// comments are retained — comments, until a reportable token or
/// failure is found, or the input ends.
pub open spec fn next_outcome(s: Seq<u8>, i: int, retain_comments: bool) -> Outcome
    recommends
        0 <= i <= s.len(),
    decreases s.len() - i,
    via next_outcome_decreases
{
    if i < 0 || i >= s.len() {
        Outcome::EndOfInput
    } else {
        match spec_scan(s, i) {
            Scan::Token(k, e) => {
                if k is Whitespace || (k is Comment && !retain_comments) {
                    next_outcome(s, e, retain_comments)
                } else {
                    Outcome::Token(k, i, e)
                }
            },
            Scan::Failure(k, e) => Outcome::Failure(k, i, e),
        }
    }
}

#[via_fn]
proof fn next_outcome_decreases(s: Seq<u8>, i: int, retain_comments: bool) {
    if 0 <= i < s.len() {
        lemma_scan_bounds(s, i);
    }
}

/// The lexer's state over one borrowed input: the monotonically
/// advancing offset, the row and column of that offset, whether the
/// end-of-input token has been emitted, and the configuration.
pub struct Lexer<'a> {
    pub source: &'a [u8],
    pub offset: usize,
    pub row: usize,
    pub column: usize,
    pub exhausted: bool,
    pub retain_comments: bool,
    pub recover_on_error: bool,
}

impl<'a> Lexer<'a> {
    /// Well-formedness: the offset is within the input, `row` and
    /// `column` are exactly the position of the offset, and a lexer is
    /// exhausted only at the end of input. The length bound keeps the
    /// one-past-the-end positions representable.
    pub open spec fn wf(&self) -> bool {
        &&& self.offset <= self.source@.len()
        &&& self.source@.len() < usize::MAX
        &&& position_at(self.source@, self.offset as int) == (Position {
            row: self.row as int,
            column: self.column as int,
        })
        &&& (self.exhausted ==> self.offset == self.source@.len())
    }

    /// A lexer over `source` with the default configuration: comments
    /// are skipped, and after a failure the offending input is stepped
    /// over so that scanning can continue.
    pub fn new(source: &'a [u8]) -> (l: Self)
        requires
            source@.len() < usize::MAX,
        ensures
            l.wf(),
            l.source@ == source@,
            l.offset == 0,
            l.row == 1,
            l.column == 1,
            !l.exhausted,
            !l.retain_comments,
            l.recover_on_error,
    {
        Lexer {
            source,
            offset: 0,
            row: 1,
            column: 1,
            exhausted: false,
            retain_comments: false,
            recover_on_error: true,
        }
    }

    /// A lexer over `source` with an explicit configuration.
    pub fn with_config(source: &'a [u8], retain_comments: bool, recover_on_error: bool) -> (l:
        Self)
        requires
            source@.len() < usize::MAX,
        ensures
            l.wf(),
            l.source@ == source@,
            l.offset == 0,
            l.row == 1,
            l.column == 1,
            !l.exhausted,
            l.retain_comments == retain_comments,
            l.recover_on_error == recover_on_error,
    {
        Lexer {
            source,
            offset: 0,
            row: 1,
            column: 1,
            exhausted: false,
            retain_comments,
            recover_on_error,
        }
    }

    /// The position tracker: consumes the one byte at the current
    /// offset. A line feed moves to column 1 of the next row; any other
    /// byte moves one column to the right.
    fn advance(&mut self)
        requires
            old(self).wf(),
            old(self).offset < old(self).source@.len(),
        ensures
            final(self).wf(),
            final(self).source == old(self).source,
            final(self).offset == old(self).offset + 1,
            final(self).exhausted == old(self).exhausted,
            final(self).retain_comments == old(self).retain_comments,
            final(self).recover_on_error == old(self).recover_on_error,
    {
        proof {
            lemma_position_bounds(self.source@, self.offset as int);
        }
        let c = self.source[self.offset];
        if c == 10 {
            self.row = self.row + 1;
            self.column = 1;
        } else {
            self.column = self.column + 1;
        }
        self.offset = self.offset + 1;
    }

    /// Consumes every byte up to offset `j`, advancing the position
    /// tracker for each one.
    fn advance_to(&mut self, j: usize)
        requires
            old(self).wf(),
            old(self).offset <= j <= old(self).source@.len(),
        ensures
            final(self).wf(),
            final(self).source == old(self).source,
            final(self).offset == j,
            final(self).exhausted == old(self).exhausted,
            final(self).retain_comments == old(self).retain_comments,
            final(self).recover_on_error == old(self).recover_on_error,
        decreases j - old(self).offset,
    {
        while self.offset < j
            invariant
                self.wf(),
                self.offset <= j <= self.source@.len(),
                self.source == old(self).source,
                self.exhausted == old(self).exhausted,
                self.retain_comments == old(self).retain_comments,
                self.recover_on_error == old(self).recover_on_error,
            decreases j - self.offset,
        {
            self.advance();
        }
    }
}

/// What `next_token` promises: the exhausted lexer keeps returning the
/// same end-of-input token with nothing changed; otherwise the call
/// reports exactly the engine's decision at the old offset, and the
/// state moves past what was consumed. After a failure the offset
/// stands past the offending input when recovery is on, and on its
/// first byte when it is off.
pub open spec fn next_token_post<'a>(
    pre: Lexer<'a>,
    post: Lexer<'a>,
    r: Result<Token, LexerError>,
) -> bool {
    &&& post.wf()
    &&& post.source == pre.source
    &&& post.retain_comments == pre.retain_comments
    &&& post.recover_on_error == pre.recover_on_error
    &&& pre.offset <= post.offset
    &&& (pre.exhausted ==> post == pre)
    &&& (pre.exhausted ==> match r {
        Ok(t) => t.is_end_of_input_at(pre.source@, pre.offset as int),
        Err(_) => false,
    })
    &&& (!pre.exhausted ==> match next_outcome(
        pre.source@,
        pre.offset as int,
        pre.retain_comments,
    ) {
        Outcome::EndOfInput => {
            &&& post.exhausted
            &&& post.offset == post.source@.len()
            &&& match r {
                Ok(t) => t.is_end_of_input_at(pre.source@, pre.source@.len() as int),
                Err(_) => false,
            }
        },
        Outcome::Token(k, st, e) => {
            &&& !post.exhausted
            &&& post.offset as int == e
            &&& match r {
                Ok(t) => t.is_token_for(pre.source@, k, st, e),
                Err(_) => false,
            }
        },
        Outcome::Failure(k, st, e) => {
            &&& !post.exhausted
            &&& post.offset as int == (if pre.recover_on_error {
                e
            } else {
                st
            })
            &&& match r {
                Ok(_) => false,
                Err(er) => error_reports(er, pre.source@, k, st, e),
            }
        },
    })
}

impl<'a> Lexer<'a> {
    /// One step of the pull interface: skip whitespace and — unless
    /// retained — comments, then either emit the end-of-input token
    /// (and stay exhausted from then on), emit the token that starts
    /// here, or report the failure that starts here.
    #[verifier::loop_isolation(false)]
    pub fn next_token(&mut self) -> (r: Result<Token, LexerError>)
        requires
            old(self).wf(),
        ensures
            next_token_post(*old(self), *final(self), r),
    {
        if self.exhausted {
            return Ok(
                Token {
                    kind: TokenKind::EndOfInput,
                    lexeme: Vec::new(),
                    row: self.row,
                    column: self.column,
                },
            );
        }
        loop
            invariant
                self.wf(),
                !self.exhausted,
                old(self).offset <= self.offset,
                self.source == old(self).source,
                self.retain_comments == old(self).retain_comments,
                self.recover_on_error == old(self).recover_on_error,
                next_outcome(self.source@, self.offset as int, self.retain_comments)
                    == next_outcome(
                    old(self).source@,
                    old(self).offset as int,
                    old(self).retain_comments,
                ),
            decreases self.source@.len() - self.offset,
        {
            let n = self.source.len();
            if self.offset >= n {
                self.exhausted = true;
                return Ok(
                    Token {
                        kind: TokenKind::EndOfInput,
                        lexeme: Vec::new(),
                        row: self.row,
                        column: self.column,
                    },
                );
            }
            let decision = scan(self.source, self.offset);
            match decision {
                ScanResult::Token(k, e) => {
                    let skip = match k {
                        TokenKind::Whitespace => true,
                        TokenKind::Comment => !self.retain_comments,
                        _ => false,
                    };
                    if skip {
                        self.advance_to(e);
                    } else {
                        let st = self.offset;
                        let row = self.row;
                        let column = self.column;
                        let lexeme = make_lexeme(self.source, st, e);
                        self.advance_to(e);
                        return Ok(Token { kind: k, lexeme, row, column });
                    }
                },
                ScanResult::Failure(k, e) => {
                    let row = self.row;
                    let column = self.column;
                    let message = error_message(k, self.source, self.offset, e);
                    if self.recover_on_error {
                        self.advance_to(e);
                    }
                    return Err(LexerError::new(message, row, column));
                },
            }
        }
    }
}

/// The engine's decision spans a non-empty range of the input at or
/// after the offset it was asked at.
pub proof fn lemma_next_outcome_bounds(s: Seq<u8>, i: int, retain_comments: bool)
    requires
        0 <= i <= s.len(),
    ensures
        match next_outcome(s, i, retain_comments) {
            Outcome::EndOfInput => true,
            Outcome::Token(k, st, e) => i <= st < e <= s.len() && !(k is EndOfInput),
            Outcome::Failure(_, st, e) => i <= st < e <= s.len(),
        },
    decreases s.len() - i,
{
    if i < s.len() {
        lemma_scan_bounds(s, i);
        match spec_scan(s, i) {
            Scan::Token(k, e) => {
                if k is Whitespace || (k is Comment && !retain_comments) {
                    lemma_next_outcome_bounds(s, e, retain_comments);
                }
            },
            Scan::Failure(_, _) => {},
        }
    }
}

/// What a token carries, as plain mathematical values.
pub struct TokenModel {
    pub kind: TokenKind,
    pub lexeme: Seq<u8>,
    pub row: int,
    pub column: int,
}

/// What a diagnostic carries, as plain mathematical values.
pub struct ErrorModel {
    pub message: Seq<char>,
    pub row: int,
    pub column: int,
}

impl Token {
    /// The mathematical value of this token.
    pub open spec fn model(self) -> TokenModel {
        TokenModel {
            kind: self.kind,
            lexeme: self.lexeme@,
            row: self.row as int,
            column: self.column as int,
        }
    }
}

/// The mathematical value of a diagnostic.
pub open spec fn error_model(er: LexerError) -> ErrorModel {
    ErrorModel {
        message: er.spec_message(),
        row: er.spec_row() as int,
        column: er.spec_column() as int,
    }
}

/// The mathematical values of a sequence of tokens.
pub open spec fn token_models(ts: Seq<Token>) -> Seq<TokenModel> {
    ts.map_values(|t: Token| t.model())
}

/// The mathematical values of a sequence of diagnostics.
pub open spec fn error_models(es: Seq<LexerError>) -> Seq<ErrorModel> {
    es.map_values(|er: LexerError| error_model(er))
}

/// The whole-input result of scanning from offset `i` with recovery:
/// every token the engine emits, the end-of-input token included, and
/// every failure it reports, each at its position, in input order.
pub open spec fn spec_stream(s: Seq<u8>, i: int, retain_comments: bool) -> (
    Seq<TokenModel>,
    Seq<ErrorModel>,
)
    recommends
        0 <= i <= s.len(),
    decreases s.len() - i,
    via spec_stream_decreases
{
    match next_outcome(s, i, retain_comments) {
        Outcome::EndOfInput => (
            seq![
                TokenModel {
                    kind: TokenKind::EndOfInput,
                    lexeme: Seq::<u8>::empty(),
                    row: position_at(s, s.len() as int).row,
                    column: position_at(s, s.len() as int).column,
                },
            ],
            Seq::<ErrorModel>::empty(),
        ),
        Outcome::Token(k, st, e) => {
            let rest = spec_stream(s, e, retain_comments);
            (
                seq![
                    TokenModel {
                        kind: k,
                        lexeme: s.subrange(st, e),
                        row: position_at(s, st).row,
                        column: position_at(s, st).column,
                    },
                ] + rest.0,
                rest.1,
            )
        },
        Outcome::Failure(k, st, e) => {
            let rest = spec_stream(s, e, retain_comments);
            (
                rest.0,
                seq![
                    ErrorModel {
                        message: spec_error_message(k, s.subrange(st, e)),
                        row: position_at(s, st).row,
                        column: position_at(s, st).column,
                    },
                ] + rest.1,
            )
        },
    }
}

#[via_fn]
proof fn spec_stream_decreases(s: Seq<u8>, i: int, retain_comments: bool) {
    if 0 <= i <= s.len() {
        lemma_next_outcome_bounds(s, i, retain_comments);
    }
}

/// On input consisting only of whitespace, the engine's first decision
/// — and its decision at every offset — is the end of input: one
/// end-of-input token is emitted and no failure is ever reported.
pub proof fn lemma_whitespace_only_ends_input(s: Seq<u8>, i: int, retain_comments: bool)
    requires
        0 <= i <= s.len(),
        forall|j: int| 0 <= j < s.len() ==> is_whitespace(s[j]),
    ensures
        next_outcome(s, i, retain_comments) == Outcome::EndOfInput,
    decreases s.len() - i,
{
    if i < s.len() {
        lemma_scan_bounds(s, i);
        lemma_whitespace_only_ends_input(s, whitespace_end(s, i), retain_comments);
    }
}

/// A string literal whose closing quote never comes is reported as
/// exactly one failure, at the position of its opening quote, and
/// nothing follows it but the end-of-input token: the offending input
/// extends to the end, so the failure cannot be reported twice.
pub proof fn lemma_unterminated_string_is_final(s: Seq<u8>, i: int, retain_comments: bool)
    requires
        0 <= i < s.len(),
        s[i] == 34,
        string_end(s, i + 1) is None,
    ensures
        next_outcome(s, i, retain_comments) == Outcome::Failure(
            ErrorKind::UnterminatedString,
            i,
            s.len() as int,
        ),
        spec_stream(s, i, retain_comments) == (
            seq![
                TokenModel {
                    kind: TokenKind::EndOfInput,
                    lexeme: Seq::<u8>::empty(),
                    row: position_at(s, s.len() as int).row,
                    column: position_at(s, s.len() as int).column,
                },
            ],
            seq![
                ErrorModel {
                    message: spec_error_message(
                        ErrorKind::UnterminatedString,
                        s.subrange(i, s.len() as int),
                    ),
                    row: position_at(s, i).row,
                    column: position_at(s, i).column,
                },
            ],
        ),
{
    assert(next_outcome(s, i, retain_comments) == Outcome::Failure(
        ErrorKind::UnterminatedString,
        i,
        s.len() as int,
    ));
    assert(next_outcome(s, s.len() as int, retain_comments) == Outcome::EndOfInput);
    assert(spec_stream(s, s.len() as int, retain_comments).1 =~~= Seq::<ErrorModel>::empty());
    assert(spec_stream(s, i, retain_comments).0 =~~= seq![
        TokenModel {
            kind: TokenKind::EndOfInput,
            lexeme: Seq::<u8>::empty(),
            row: position_at(s, s.len() as int).row,
            column: position_at(s, s.len() as int).column,
        },
    ]);
    assert(spec_stream(s, i, retain_comments).1 =~~= seq![
        ErrorModel {
            message: spec_error_message(
                ErrorKind::UnterminatedString,
                s.subrange(i, s.len() as int),
            ),
            row: position_at(s, i).row,
            column: position_at(s, i).column,
        },
    ]);
}

/// The one-shot interface for tooling that needs the whole picture:
/// scans the entire input with recovery on, and returns every token —
/// the end-of-input token last — together with every diagnostic
/// collected along the way, each in input order.
#[verifier::loop_isolation(false)]
pub fn tokenize(source: &[u8], retain_comments: bool) -> (r: (Vec<Token>, Vec<LexerError>))
    requires
        source@.len() < usize::MAX,
    ensures
        token_models(r.0@) == spec_stream(source@, 0, retain_comments).0,
        error_models(r.1@) == spec_stream(source@, 0, retain_comments).1,
{
    let mut lx = Lexer::with_config(source, retain_comments, true);
    let mut tokens: Vec<Token> = Vec::new();
    let mut errors: Vec<LexerError> = Vec::new();
    loop
        invariant
            lx.wf(),
            !lx.exhausted,
            lx.source@ == source@,
            lx.retain_comments == retain_comments,
            lx.recover_on_error,
            spec_stream(source@, 0, retain_comments).0 == token_models(tokens@) + spec_stream(
                source@,
                lx.offset as int,
                retain_comments,
            ).0,
            spec_stream(source@, 0, retain_comments).1 == error_models(errors@) + spec_stream(
                source@,
                lx.offset as int,
                retain_comments,
            ).1,
        decreases source@.len() - lx.offset,
    {
        let ghost s = source@;
        let ghost pre = lx.offset as int;
        let ghost rest_pre = spec_stream(s, pre, retain_comments);
        proof {
            lemma_next_outcome_bounds(s, pre, retain_comments);
        }
        match lx.next_token() {
            Ok(t) => {
                let done = match t.kind {
                    TokenKind::EndOfInput => true,
                    _ => false,
                };
                proof {
                    if done {
                        assert(rest_pre.0 =~~= seq![t.model()]);
                        assert(token_models(tokens@.push(t)) =~~= token_models(tokens@)
                            + rest_pre.0);
                        assert(error_models(errors@) + rest_pre.1 =~~= error_models(errors@));
                    } else {
                        let rest_now = spec_stream(s, lx.offset as int, retain_comments);
                        assert(token_models(tokens@) + rest_pre.0 =~~= token_models(
                            tokens@.push(t),
                        ) + rest_now.0);
                    }
                }
                tokens.push(t);
                if done {
                    return (tokens, errors);
                }
            },
            Err(e) => {
                proof {
                    let rest_now = spec_stream(s, lx.offset as int, retain_comments);
                    assert(error_models(errors@) + rest_pre.1 =~~= error_models(errors@.push(e))
                        + rest_now.1);
                }
                errors.push(e);
            },
        }
    }
}

/// Copies the bytes of `source[st..e]` into an owned lexeme.
fn make_lexeme(source: &[u8], st: usize, e: usize) -> (v: Vec<u8>)
    requires
        st <= e <= source@.len(),
    ensures
        v@ == source@.subrange(st as int, e as int),
{
    let mut v: Vec<u8> = Vec::new();
    let mut k: usize = st;
    while k < e
        invariant
            st <= k <= e <= source@.len(),
            v@ == source@.subrange(st as int, k as int),
        decreases e - k,
    {
        v.push(source[k]);
        k = k + 1;
    }
    v
}

} // verus!
