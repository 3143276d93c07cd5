//! Tests of the lexer: token kinds, payloads, spans and errors.

use mixfix::Position;
use mixfix::Span;
use mixfix::Token;
use mixfix::TokenKind;
use mixfix::TokenizeError;
use mixfix::Tokenizer;

fn lex_all(input: &str) -> Result<Vec<Token>, TokenizeError> {
    let mut tokenizer = Tokenizer::new(input);
    let mut tokens = Vec::new();
    loop {
        match tokenizer.next_token() {
            Ok(Some(token)) => tokens.push(token),
            Ok(None) => return Ok(tokens),
            Err(error) => return Err(error),
        }
    }
}

#[test]
fn test_tokenizer() {
    let input_text = r#"identifier123 "string literal" 123.456 [] {} ()"#;
    let mut tokenizer = Tokenizer::new(input_text);

    let tokens: Result<Vec<Token>, _> =
        std::iter::from_fn(move || tokenizer.next_token().transpose()).collect();

    let mut tokens = tokens.unwrap();

    assert_eq!(tokens.len(), 9);
    tokens.reverse();
    assert_eq!(
        tokens.pop().unwrap().kind,
        TokenKind::Identifier("identifier123".to_string())
    );

    assert_eq!(
        tokens.pop().unwrap().kind,
        TokenKind::StringLiteral("string literal".to_string())
    );

    assert_eq!(
        tokens.pop().unwrap().kind,
        TokenKind::NumberLiteral("123.456".to_string())
    );
}

#[test]
fn lex_determinism() {
    let input = "def (n .factorial): if (n < 2) then 1 else: n *: n - 1 .factorial";
    let first = lex_all(input).unwrap();
    let second = lex_all(input).unwrap();
    assert_eq!(first, second);
}

#[test]
fn lex_positions() {
    let tokens = lex_all("  x\ny").unwrap();
    assert_eq!(tokens.len(), 2);
    let x = &tokens[0];
    assert_eq!(x.span.start.line_number, 1);
    assert_eq!(x.span.start.column_number, 3);
    assert_eq!(x.span.start.character_index, 2);
    assert_eq!(x.span.end.character_index, 3);
    let y = &tokens[1];
    assert_eq!(y.span.start.line_number, 2);
    assert_eq!(y.span.start.column_number, 1);
    assert_eq!(y.span.start.character_index, 4);
    assert_eq!(y.span.end.character_index, 5);
}

#[test]
fn lex_unterminated_string() {
    let result = lex_all("\"abc");
    assert_eq!(result, Err(TokenizeError::UnterminatedStringLiteral));
}

#[test]
fn lex_invalid_escape() {
    let result = lex_all("\"a\\xb\"");
    assert_eq!(result, Err(TokenizeError::InvalidEscapeSequence('x')));
}

#[test]
fn lex_multiple_decimal_points() {
    let result = lex_all("1.2.3");
    assert_eq!(
        result,
        Err(TokenizeError::InvalidNumberFormatMultipleDecimalPoints)
    );
}

#[test]
fn lex_string_escapes() {
    let tokens = lex_all("\"a\\nb\\tc\\\\d\\\"e\"").unwrap();
    assert_eq!(tokens.len(), 1);
    assert_eq!(
        tokens[0].kind,
        TokenKind::StringLiteral("a\nb\tc\\d\"e".to_string())
    );
}

#[test]
fn lex_merged_operator_run() {
    // Operators eat maximal non-whitespace, non-punctuation runs, so `a+b`
    // lexes as an identifier `a` followed by one operator `+b`.
    let tokens = lex_all("a+b").unwrap();
    assert_eq!(tokens.len(), 2);
    assert_eq!(tokens[0].kind, TokenKind::Identifier("a".to_string()));
    assert_eq!(tokens[1].kind, TokenKind::Operator("+b".to_string()));
}

#[test]
fn lex_number_trailing_dot() {
    let tokens = lex_all("1.").unwrap();
    assert_eq!(tokens.len(), 1);
    assert_eq!(tokens[0].kind, TokenKind::NumberLiteral("1.".to_string()));
}

#[test]
fn lex_number_keeps_source_text() {
    let tokens = lex_all("01").unwrap();
    assert_eq!(tokens.len(), 1);
    assert_eq!(tokens[0].kind, TokenKind::NumberLiteral("01".to_string()));
}

#[test]
fn lex_unicode_identifier() {
    let tokens = lex_all("héllo_1").unwrap();
    assert_eq!(tokens.len(), 1);
    assert_eq!(tokens[0].kind, TokenKind::Identifier("héllo_1".to_string()));
}

#[test]
fn lex_peek_is_idempotent() {
    let mut tokenizer = Tokenizer::new("a b");
    let first = tokenizer.peek_token().unwrap().unwrap();
    let second = tokenizer.peek_token().unwrap().unwrap();
    assert_eq!(first, second);
    let consumed = tokenizer.next_token().unwrap().unwrap();
    assert_eq!(first, consumed);
    let next = tokenizer.next_token().unwrap().unwrap();
    assert_eq!(next.kind, TokenKind::Identifier("b".to_string()));
}

#[test]
fn position_min_max() {
    let a = Position {
        line_number: 1,
        column_number: 5,
        character_index: 4,
    };
    let b = Position {
        line_number: 2,
        column_number: 1,
        character_index: 8,
    };
    let low = a.min(&b);
    assert_eq!(low.line_number, 1);
    assert_eq!(low.column_number, 1);
    assert_eq!(low.character_index, 4);
    let high = a.max(&b);
    assert_eq!(high.line_number, 2);
    assert_eq!(high.column_number, 5);
    assert_eq!(high.character_index, 8);
}

#[test]
fn span_join_contains_both() {
    let a = Span {
        start: Position {
            line_number: 1,
            column_number: 2,
            character_index: 1,
        },
        end: Position {
            line_number: 1,
            column_number: 4,
            character_index: 3,
        },
    };
    let b = Span {
        start: Position {
            line_number: 2,
            column_number: 1,
            character_index: 6,
        },
        end: Position {
            line_number: 2,
            column_number: 3,
            character_index: 8,
        },
    };
    let joined = a.join(&b);
    assert_eq!(joined.start.character_index, 1);
    assert_eq!(joined.end.character_index, 8);
    assert_eq!(joined, b.join(&a));
}
