//! Tests of the parser, the lowering and the canonical stringifier.

use mixfix::parse;
use mixfix::ParseError;
use mixfix::TokenKind;
use mixfix::TokenizeError;

fn parsed(input: &str) -> String {
    parse(input).unwrap().stringify()
}

#[test]
fn operator_1() {
    let input = "n *: n - 1 .factorial";
    let result = parse(input);
    assert!(result.is_ok());
    println!("{}", input);
    println!("{}", result.unwrap().stringify());
}

#[test]
fn case_1() {
    let input = "x <= y < z";
    let result = parse(input);
    assert!(result.is_ok());
    println!("{}", input);
    println!("{}", result.unwrap().stringify());
}

#[test]
fn case_2() {
    let input = "def (n .factorial): if (n < 2) then 1 else: n *: n - 1 .factorial";
    let result = parse(input);
    assert!(result.is_ok());
    println!("{}", input);
    println!("{}", result.unwrap().stringify());
}

#[test]
fn scenario_literals_call() {
    // The head contributes its name; literal arguments become placeholders
    // in the synthesised name and are kept as arguments.
    assert_eq!(
        parsed(r#"identifier123 "string literal" 123.456"#),
        r#"((identifier123__ "string literal" 123.456))"#
    );
}

#[test]
fn scenario_mixfix_comparison() {
    assert_eq!(parsed("x <= y < z"), "((_<=_<_ x y z))");
}

#[test]
fn scenario_tail_injection() {
    assert_eq!(
        parsed("n *: n - 1 .factorial"),
        "((_* n (factorial (_-_ n 1))))"
    );
}

#[test]
fn scenario_postfix_chain() {
    // Juxtaposed bare names merge into the synthesised function name, so
    // `f x` lowers to `(fx)`, and `.` injects the left operand as the
    // first argument of the right side's call.
    assert_eq!(parsed("f x . g y"), "((gy (fx)))");
}

#[test]
fn scenario_top_level_list() {
    assert_eq!(parsed("a, b, c"), "(a b c)");
}

#[test]
fn scenario_nested_group() {
    assert_eq!(parsed("(a, b) , c"), "((a b) c)");
}

#[test]
fn empty_input_parses_to_empty_list() {
    assert_eq!(parsed(""), "()");
}

#[test]
fn whitespace_only_parses_to_empty_list() {
    assert_eq!(parsed("  \n\t "), "()");
}

#[test]
fn single_literal_parses_to_singleton_list() {
    assert_eq!(parsed("x"), "(x)");
}

#[test]
fn empty_group() {
    assert_eq!(parsed("()"), "(())");
}

#[test]
fn bracket_shapes_are_equivalent() {
    assert_eq!(parsed("(a, b)"), "((a b))");
    assert_eq!(parsed("{a, b}"), "((a b))");
    assert_eq!(parsed("[a, b]"), "((a b))");
}

#[test]
fn dot_associates_to_the_left() {
    assert_eq!(parsed("a . b . c"), "((c (b a)))");
}

#[test]
fn colon_associates_to_the_right() {
    assert_eq!(parsed("a : b : c"), "((a (b c)))");
}

#[test]
fn unmatched_open_bracket() {
    match parse("(") {
        Err(ParseError::UnexpectedEof { expected }) => {
            assert_eq!(expected, Some(TokenKind::RightParenthesis));
        }
        other => panic!("expected UnexpectedEof, got {:?}", other),
    }
}

#[test]
fn wrong_closing_bracket() {
    match parse("(a]") {
        Err(ParseError::UnexpectedToken { token, expected }) => {
            assert_eq!(token.kind, TokenKind::RightBracket);
            assert_eq!(expected, Some(TokenKind::RightParenthesis));
        }
        other => panic!("expected UnexpectedToken, got {:?}", other),
    }
}

#[test]
fn stray_closing_bracket() {
    match parse(")") {
        Err(ParseError::UnexpectedToken { token, expected }) => {
            assert_eq!(token.kind, TokenKind::RightParenthesis);
            assert_eq!(expected, None);
        }
        other => panic!("expected UnexpectedToken, got {:?}", other),
    }
}

#[test]
fn trailing_token_is_rejected() {
    match parse("a) b") {
        Err(ParseError::UnexpectedToken { token, expected }) => {
            assert_eq!(token.kind, TokenKind::RightParenthesis);
            assert_eq!(expected, None);
        }
        other => panic!("expected UnexpectedToken, got {:?}", other),
    }
}

#[test]
fn dangling_separator_is_rejected() {
    match parse("a,") {
        Err(ParseError::UnexpectedEof { expected }) => {
            assert_eq!(expected, None);
        }
        other => panic!("expected UnexpectedEof, got {:?}", other),
    }
}

#[test]
fn lexical_error_cascades() {
    match parse("\"abc") {
        Err(ParseError::TokenizeError(TokenizeError::UnterminatedStringLiteral)) => {}
        other => panic!("expected a tokenize error, got {:?}", other),
    }
}

#[test]
fn parse_determinism() {
    let input = "def (n .factorial): if (n < 2) then 1 else: n *: n - 1 .factorial";
    let first = parse(input).unwrap().stringify();
    let second = parse(input).unwrap().stringify();
    assert_eq!(first, second);
}

#[test]
fn stringify_escapes_string_literals() {
    assert_eq!(parsed("\"a\\nb\\tc\\\\d\\\"e\""), "(\"a\\nb\\tc\\\\d\\\"e\")");
}

#[test]
fn number_renders_as_its_source_text() {
    assert_eq!(parsed("01"), "(01)");
    assert_eq!(parsed("1."), "(1.)");
}

#[test]
fn mixfix_name_spans_cover_components() {
    // `x <= y` synthesises one call whose name span joins the component
    // spans: from the start of `x` to the end of `y`.
    match parse("x <= y").unwrap() {
        mixfix::Sexp::List(top) => match &top[0] {
            mixfix::Sexp::List(call) => match &call[0] {
                mixfix::Sexp::Name(name) => {
                    assert_eq!(name.value, "_<=_");
                    assert_eq!(name.span.start.character_index, 0);
                    assert_eq!(name.span.end.character_index, 6);
                }
                other => panic!("expected a name head, got {:?}", other),
            },
            other => panic!("expected a call, got {:?}", other),
        },
        other => panic!("expected the top-level list, got {:?}", other),
    }
}
