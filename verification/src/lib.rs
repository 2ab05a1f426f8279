//! A lexical analyzer for a small C-like language.
//!
//! The lexer turns a borrowed byte buffer into a stream of classified
//! tokens, tracking the 1-based row and column of every token and
//! diagnostic. Consumers either pull tokens one at a time with
//! `Lexer::next_token`, or take the whole picture at once with
//! `tokenize`, which collects every token and every diagnostic of one
//! pass.
//!
//! The token grammar is fixed: identifiers of ASCII letters, digits and
//! underscores, held against a reserved-word table after the full
//! identifier is scanned; integer and float literals without exponent
//! notation; double-quoted strings with backslash escapes; line and
//! block comments; and one- and two-byte operators resolved longest
//! match first. Whitespace is always skipped; comments are skipped
//! unless the lexer is configured to retain them. A failure is reported
//! at the position of its first offending byte, and with recovery on
//! (the default) the lexer steps past the offending input and
//! continues, so one pass can report several independent failures.

pub mod errors;
pub mod kinds;
pub mod lexer;
pub mod position;

pub use errors::ErrorKind;
pub use errors::LexerError;
pub use kinds::Keyword;
pub use kinds::Operator;
pub use kinds::Punctuation;
pub use kinds::TokenKind;
pub use lexer::Lexer;
pub use lexer::Token;
pub use lexer::tokenize;
