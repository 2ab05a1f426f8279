use lexer::Keyword;
use lexer::Lexer;
use lexer::LexerError;
use lexer::Operator;
use lexer::Punctuation;
use lexer::Token;
use lexer::TokenKind;

fn collect(src: &[u8]) -> (Vec<Token>, Vec<LexerError>) {
    let mut lx = Lexer::new(src);
    collect_from(&mut lx)
}

fn collect_from(lx: &mut Lexer) -> (Vec<Token>, Vec<LexerError>) {
    let mut tokens = Vec::new();
    let mut errors = Vec::new();
    loop {
        match lx.next_token() {
            Ok(t) => {
                let done = t.kind == TokenKind::EndOfInput;
                tokens.push(t);
                if done {
                    break;
                }
            }
            Err(e) => errors.push(e),
        }
    }
    (tokens, errors)
}

#[test]
fn empty_input_yields_end_of_input() {
    let (tokens, errors) = collect(b"");
    assert_eq!(tokens.len(), 1);
    assert_eq!(tokens[0].kind, TokenKind::EndOfInput);
    assert_eq!(tokens[0].lexeme, Vec::<u8>::new());
    assert_eq!(tokens[0].row, 1);
    assert_eq!(tokens[0].column, 1);
    assert!(errors.is_empty());
}

#[test]
fn whitespace_only_yields_one_end_of_input() {
    let (tokens, errors) = collect(b"  \t\r\n   ");
    assert_eq!(tokens.len(), 1);
    assert_eq!(tokens[0].kind, TokenKind::EndOfInput);
    assert!(errors.is_empty());
}

#[test]
fn end_of_input_is_idempotent() {
    let mut lx = Lexer::new(b"x ");
    let first = lx.next_token().unwrap();
    assert_eq!(first.kind, TokenKind::Identifier);
    let eof1 = lx.next_token().unwrap();
    let eof2 = lx.next_token().unwrap();
    let eof3 = lx.next_token().unwrap();
    assert_eq!(eof1, eof2);
    assert_eq!(eof2, eof3);
    assert_eq!(eof3.kind, TokenKind::EndOfInput);
    assert_eq!(eof3.row, 1);
    assert_eq!(eof3.column, 3);
}

#[test]
fn keywords_beat_identifiers() {
    let words: [(&[u8], Keyword); 8] = [
        (b"if", Keyword::If),
        (b"else", Keyword::Else),
        (b"while", Keyword::While),
        (b"let", Keyword::Let),
        (b"fn", Keyword::Fn),
        (b"return", Keyword::Return),
        (b"true", Keyword::True),
        (b"false", Keyword::False),
    ];
    for (word, kw) in words {
        let (tokens, errors) = collect(word);
        assert_eq!(tokens.len(), 2);
        assert_eq!(tokens[0].kind, TokenKind::Keyword(kw));
        assert_eq!(tokens[0].lexeme, word.to_vec());
        assert!(errors.is_empty());
    }
}

#[test]
fn almost_keywords_are_identifiers() {
    for word in [b"iff".as_slice(), b"whil", b"lets", b"_if", b"If"] {
        let (tokens, errors) = collect(word);
        assert_eq!(tokens.len(), 2);
        assert_eq!(tokens[0].kind, TokenKind::Identifier);
        assert!(errors.is_empty());
    }
}

#[test]
fn double_equals_is_one_operator() {
    let (tokens, errors) = collect(b"==");
    assert_eq!(tokens.len(), 2);
    assert_eq!(tokens[0].kind, TokenKind::Operator(Operator::EqEq));
    assert_eq!(tokens[0].lexeme, b"==".to_vec());
    assert_eq!(tokens[1].kind, TokenKind::EndOfInput);
    assert!(errors.is_empty());
}

#[test]
fn triple_equals_is_double_then_single() {
    let (tokens, errors) = collect(b"===");
    assert_eq!(tokens.len(), 3);
    assert_eq!(tokens[0].kind, TokenKind::Operator(Operator::EqEq));
    assert_eq!(tokens[1].kind, TokenKind::Operator(Operator::Assign));
    assert_eq!(tokens[1].column, 3);
    assert!(errors.is_empty());
}

#[test]
fn position_is_tracked_across_newlines() {
    let (tokens, errors) = collect(b"ab\ncd");
    assert_eq!(tokens.len(), 3);
    assert_eq!(tokens[0].lexeme, b"ab".to_vec());
    assert_eq!(tokens[0].row, 1);
    assert_eq!(tokens[0].column, 1);
    assert_eq!(tokens[1].lexeme, b"cd".to_vec());
    assert_eq!(tokens[1].row, 2);
    assert_eq!(tokens[1].column, 1);
    assert!(errors.is_empty());
}

#[test]
fn unterminated_string_is_one_error_at_the_quote() {
    let mut lx = Lexer::new(b"\"abc");
    let err = lx.next_token().unwrap_err();
    assert_eq!(err.message().as_str(), "unterminated string literal: \"abc");
    assert_eq!(err.row(), 1);
    assert_eq!(err.column(), 1);
    let (tokens, errors) = collect_from(&mut lx);
    assert_eq!(tokens.len(), 1);
    assert_eq!(tokens[0].kind, TokenKind::EndOfInput);
    assert!(errors.is_empty());
}

#[test]
fn recovery_collects_multiple_results_in_one_pass() {
    let mut lx = Lexer::new(b"x = 12.3.4;");
    let t = lx.next_token().unwrap();
    assert_eq!(t.kind, TokenKind::Identifier);
    assert_eq!(t.lexeme, b"x".to_vec());
    let t = lx.next_token().unwrap();
    assert_eq!(t.kind, TokenKind::Operator(Operator::Assign));
    assert_eq!(t.lexeme, b"=".to_vec());
    let t = lx.next_token().unwrap();
    assert_eq!(t.kind, TokenKind::FloatLiteral);
    assert_eq!(t.lexeme, b"12.3".to_vec());
    let err = lx.next_token().unwrap_err();
    assert_eq!(err.message().as_str(), "malformed numeric literal: .4");
    assert_eq!(err.row(), 1);
    assert_eq!(err.column(), 9);
    let t = lx.next_token().unwrap();
    assert_eq!(t.kind, TokenKind::Punctuation(Punctuation::Semicolon));
    assert_eq!(t.column, 11);
    let t = lx.next_token().unwrap();
    assert_eq!(t.kind, TokenKind::EndOfInput);
}

#[test]
fn integer_then_float_shapes() {
    let (tokens, errors) = collect(b"12 12.5");
    assert_eq!(tokens.len(), 3);
    assert_eq!(tokens[0].kind, TokenKind::IntegerLiteral);
    assert_eq!(tokens[0].lexeme, b"12".to_vec());
    assert_eq!(tokens[1].kind, TokenKind::FloatLiteral);
    assert_eq!(tokens[1].lexeme, b"12.5".to_vec());
    assert!(errors.is_empty());
}

#[test]
fn trailing_dot_is_not_part_of_a_number() {
    let (tokens, errors) = collect(b"12.");
    assert_eq!(tokens.len(), 3);
    assert_eq!(tokens[0].kind, TokenKind::IntegerLiteral);
    assert_eq!(tokens[0].lexeme, b"12".to_vec());
    assert_eq!(tokens[1].kind, TokenKind::Punctuation(Punctuation::Dot));
    assert!(errors.is_empty());
}

#[test]
fn adjacent_dots_split_then_fail() {
    let (tokens, errors) = collect(b"12..5");
    assert_eq!(tokens.len(), 3);
    assert_eq!(tokens[0].kind, TokenKind::IntegerLiteral);
    assert_eq!(tokens[1].kind, TokenKind::Punctuation(Punctuation::Dot));
    assert_eq!(errors.len(), 1);
    assert_eq!(errors[0].message().as_str(), "malformed numeric literal: .5");
    assert_eq!(errors[0].column(), 4);
}

#[test]
fn string_literal_keeps_quotes_and_escapes() {
    let (tokens, errors) = collect(b"\"a\\\"b\"");
    assert_eq!(tokens.len(), 2);
    assert_eq!(tokens[0].kind, TokenKind::StringLiteral);
    assert_eq!(tokens[0].lexeme, b"\"a\\\"b\"".to_vec());
    assert!(errors.is_empty());
}

#[test]
fn line_comments_are_skipped_by_default() {
    let (tokens, errors) = collect(b"a // note\nb");
    assert_eq!(tokens.len(), 3);
    assert_eq!(tokens[0].lexeme, b"a".to_vec());
    assert_eq!(tokens[1].lexeme, b"b".to_vec());
    assert_eq!(tokens[1].row, 2);
    assert!(errors.is_empty());
}

#[test]
fn line_comments_can_be_retained() {
    let mut lx = Lexer::with_config(b"a // note\nb", true, true);
    let (tokens, errors) = collect_from(&mut lx);
    assert_eq!(tokens.len(), 4);
    assert_eq!(tokens[1].kind, TokenKind::Comment);
    assert_eq!(tokens[1].lexeme, b"// note".to_vec());
    assert_eq!(tokens[1].column, 3);
    assert!(errors.is_empty());
}

#[test]
fn block_comments_are_skipped_and_rows_advance() {
    let (tokens, errors) = collect(b"a /* one\ntwo */ b");
    assert_eq!(tokens.len(), 3);
    assert_eq!(tokens[1].lexeme, b"b".to_vec());
    assert_eq!(tokens[1].row, 2);
    assert_eq!(tokens[1].column, 8);
    assert!(errors.is_empty());
}

#[test]
fn block_comments_can_be_retained() {
    let mut lx = Lexer::with_config(b"/* c */x", true, true);
    let (tokens, errors) = collect_from(&mut lx);
    assert_eq!(tokens.len(), 3);
    assert_eq!(tokens[0].kind, TokenKind::Comment);
    assert_eq!(tokens[0].lexeme, b"/* c */".to_vec());
    assert!(errors.is_empty());
}

#[test]
fn unterminated_block_comment_reports_the_opening() {
    let mut lx = Lexer::new(b"x /* abc");
    let t = lx.next_token().unwrap();
    assert_eq!(t.kind, TokenKind::Identifier);
    let err = lx.next_token().unwrap_err();
    assert_eq!(err.message().as_str(), "unterminated block comment: /* abc");
    assert_eq!(err.row(), 1);
    assert_eq!(err.column(), 3);
    let eof = lx.next_token().unwrap();
    assert_eq!(eof.kind, TokenKind::EndOfInput);
}

#[test]
fn invalid_character_is_reported_and_skipped() {
    let mut lx = Lexer::new(b"@ x");
    let err = lx.next_token().unwrap_err();
    assert_eq!(err.message().as_str(), "invalid character: @");
    assert_eq!(err.row(), 1);
    assert_eq!(err.column(), 1);
    let t = lx.next_token().unwrap();
    assert_eq!(t.kind, TokenKind::Identifier);
    assert_eq!(t.lexeme, b"x".to_vec());
}

#[test]
fn without_recovery_the_lexer_stays_at_the_failure() {
    let mut lx = Lexer::with_config(b"@x", false, false);
    let err1 = lx.next_token().unwrap_err();
    let err2 = lx.next_token().unwrap_err();
    assert_eq!(err1.message().as_str(), "invalid character: @");
    assert_eq!(err2.message().as_str(), "invalid character: @");
    assert_eq!(err1.row(), err2.row());
    assert_eq!(err1.column(), err2.column());
    assert_eq!(err1.column(), 1);
}

#[test]
fn operators_and_punctuation_are_classified() {
    let cases: [(&[u8], TokenKind); 15] = [
        (b"=", TokenKind::Operator(Operator::Assign)),
        (b"!=", TokenKind::Operator(Operator::NotEq)),
        (b"<=", TokenKind::Operator(Operator::Le)),
        (b">=", TokenKind::Operator(Operator::Ge)),
        (b"&&", TokenKind::Operator(Operator::AndAnd)),
        (b"||", TokenKind::Operator(Operator::OrOr)),
        (b"<", TokenKind::Operator(Operator::Lt)),
        (b">", TokenKind::Operator(Operator::Gt)),
        (b"!", TokenKind::Operator(Operator::Not)),
        (b"+", TokenKind::Operator(Operator::Plus)),
        (b"%", TokenKind::Operator(Operator::Percent)),
        (b"(", TokenKind::Punctuation(Punctuation::LParen)),
        (b"}", TokenKind::Punctuation(Punctuation::RBrace)),
        (b",", TokenKind::Punctuation(Punctuation::Comma)),
        (b":", TokenKind::Punctuation(Punctuation::Colon)),
    ];
    for (src, kind) in cases {
        let (tokens, errors) = collect(src);
        assert_eq!(tokens.len(), 2);
        assert_eq!(tokens[0].kind, kind);
        assert_eq!(tokens[0].lexeme, src.to_vec());
        assert!(errors.is_empty());
    }
}

#[test]
fn slash_alone_is_an_operator() {
    let (tokens, errors) = collect(b"a / b");
    assert_eq!(tokens.len(), 4);
    assert_eq!(tokens[1].kind, TokenKind::Operator(Operator::Slash));
    assert!(errors.is_empty());
}

#[test]
fn lexer_error_new_keeps_its_fields() {
    let err = LexerError::new(String::from("boom"), 7, 9);
    assert_eq!(err.message().as_str(), "boom");
    assert_eq!(err.row(), 7);
    assert_eq!(err.column(), 9);
}

#[test]
fn strings_may_span_rows_and_positions_follow() {
    let (tokens, errors) = collect(b"\"a\nb\"c");
    assert_eq!(tokens.len(), 3);
    assert_eq!(tokens[0].kind, TokenKind::StringLiteral);
    assert_eq!(tokens[0].lexeme, b"\"a\nb\"".to_vec());
    assert_eq!(tokens[0].row, 1);
    assert_eq!(tokens[0].column, 1);
    assert_eq!(tokens[1].kind, TokenKind::Identifier);
    assert_eq!(tokens[1].row, 2);
    assert_eq!(tokens[1].column, 3);
    assert!(errors.is_empty());
}

#[test]
fn retaining_comments_does_not_hide_failures() {
    let mut lx = Lexer::with_config(b"/* a */ /* b", true, true);
    let t = lx.next_token().unwrap();
    assert_eq!(t.kind, TokenKind::Comment);
    assert_eq!(t.lexeme, b"/* a */".to_vec());
    let err = lx.next_token().unwrap_err();
    assert_eq!(err.message().as_str(), "unterminated block comment: /* b");
    assert_eq!(err.column(), 9);
    let eof = lx.next_token().unwrap();
    assert_eq!(eof.kind, TokenKind::EndOfInput);
}

#[test]
fn tokenize_collects_tokens_and_errors_in_one_pass() {
    let (tokens, errors) = lexer::tokenize(b"x = 12.3.4;", false);
    let kinds: Vec<TokenKind> = tokens.iter().map(|t| t.kind).collect();
    assert_eq!(
        kinds,
        vec![
            TokenKind::Identifier,
            TokenKind::Operator(Operator::Assign),
            TokenKind::FloatLiteral,
            TokenKind::Punctuation(Punctuation::Semicolon),
            TokenKind::EndOfInput,
        ]
    );
    assert_eq!(errors.len(), 1);
    assert_eq!(errors[0].message().as_str(), "malformed numeric literal: .4");
    assert_eq!(errors[0].row(), 1);
    assert_eq!(errors[0].column(), 9);
}

#[test]
fn tokenize_can_retain_comments() {
    let (tokens, errors) = lexer::tokenize(b"a // note\nb", true);
    let kinds: Vec<TokenKind> = tokens.iter().map(|t| t.kind).collect();
    assert_eq!(
        kinds,
        vec![
            TokenKind::Identifier,
            TokenKind::Comment,
            TokenKind::Identifier,
            TokenKind::EndOfInput,
        ]
    );
    assert!(errors.is_empty());
}

#[test]
fn a_small_program_lexes_cleanly() {
    let src = b"fn main() {\n    let x = 1 + 2.5;\n    if x >= 3 { return true; }\n}";
    let (tokens, errors) = collect(src);
    assert!(errors.is_empty());
    let kinds: Vec<TokenKind> = tokens.iter().map(|t| t.kind).collect();
    assert_eq!(
        kinds,
        vec![
            TokenKind::Keyword(Keyword::Fn),
            TokenKind::Identifier,
            TokenKind::Punctuation(Punctuation::LParen),
            TokenKind::Punctuation(Punctuation::RParen),
            TokenKind::Punctuation(Punctuation::LBrace),
            TokenKind::Keyword(Keyword::Let),
            TokenKind::Identifier,
            TokenKind::Operator(Operator::Assign),
            TokenKind::IntegerLiteral,
            TokenKind::Operator(Operator::Plus),
            TokenKind::FloatLiteral,
            TokenKind::Punctuation(Punctuation::Semicolon),
            TokenKind::Keyword(Keyword::If),
            TokenKind::Identifier,
            TokenKind::Operator(Operator::Ge),
            TokenKind::IntegerLiteral,
            TokenKind::Punctuation(Punctuation::LBrace),
            TokenKind::Keyword(Keyword::Return),
            TokenKind::Keyword(Keyword::True),
            TokenKind::Punctuation(Punctuation::Semicolon),
            TokenKind::Punctuation(Punctuation::RBrace),
            TokenKind::Punctuation(Punctuation::RBrace),
            TokenKind::EndOfInput,
        ]
    );
}
