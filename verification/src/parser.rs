//! The recursive-descent parser.
//!
//! The `spec_parse_*` functions define, stratum by stratum, what the parser
//! produces at any position of any source, working directly over the lexing
//! steps of `read_token` so that the one-token look-ahead (including the
//! whitespace the look-ahead consumes at end of input) is modelled exactly.
//! The executable `Parser` mirrors them; its contracts say it returns
//! exactly what the spec functions say, which makes parsing a function of
//! the source text alone.

use vstd::prelude::*;

use crate::cst::AlphanumericFunctionCallLike;
use crate::cst::AlphanumericFunctionCallLikeView;
use crate::cst::AtomicExpr;
use crate::cst::AtomicExprView;
use crate::cst::ComponentView;
use crate::cst::FunctionCallLike;
use crate::cst::FunctionCallLikeView;
use crate::cst::LeftAssocExpr;
use crate::cst::LeftAssocExprView;
use crate::cst::lemma_view_atomic_seq;
use crate::cst::lemma_view_comp_seq;
use crate::cst::lemma_view_rae_seq;
use crate::cst::List;
use crate::cst::ListView;
use crate::cst::LiteralName;
use crate::cst::LiteralNumber;
use crate::cst::LiteralString;
use crate::cst::Operator;
use crate::cst::OperatorFunctionCallLike;
use crate::cst::OperatorFunctionCallLikeComponent;
use crate::cst::OperatorFunctionCallLikeView;
use crate::cst::ParenthesizedExpr;
use crate::cst::ParenthesizedExprView;
use crate::cst::RightAssocExpr;
use crate::cst::RightAssocExprView;
use crate::cst::view_atomic_seq;
use crate::cst::view_comp_seq;
use crate::cst::view_rae_seq;
use crate::position::Position;
use crate::sexp::lower_list;
use crate::sexp::Sexp;
use crate::sexp::SexpView;
use crate::token::Token;
use crate::token::TokenKind;
use crate::token::TokenKindView;
use crate::token::TokenView;
use crate::token::TokenizeError;
use crate::token::TokenizeErrorView;
use crate::tokenizer::lemma_read_token;
use crate::tokenizer::LexStep;
use crate::tokenizer::read_token;
use crate::tokenizer::Tokenizer;

verus! {

/// An error raised while parsing: a lexical error passed through, or an
/// unexpected token or end of input, with the expected kind where the
/// grammar had a fixed expectation.
#[derive(Debug)]
pub enum ParseError {
    TokenizeError(TokenizeError),
    UnexpectedToken { token: Token, expected: Option<TokenKind> },
    UnexpectedEof { expected: Option<TokenKind> },
}

/// The view of a `ParseError`.
pub enum ParseErrorView {
    TokenizeError(TokenizeErrorView),
    UnexpectedToken { token: TokenView, expected: Option<TokenKindView> },
    UnexpectedEof { expected: Option<TokenKindView> },
}

impl View for ParseError {
    type V = ParseErrorView;

    open spec fn view(&self) -> ParseErrorView {
        match self {
            ParseError::TokenizeError(e) => ParseErrorView::TokenizeError(e@),
            ParseError::UnexpectedToken { token, expected } => ParseErrorView::UnexpectedToken {
                token: token@,
                expected: match expected {
                    Some(k) => Some(k@),
                    None => None,
                },
            },
            ParseError::UnexpectedEof { expected } => ParseErrorView::UnexpectedEof {
                expected: match expected {
                    Some(k) => Some(k@),
                    None => None,
                },
            },
        }
    }
}

/// The result type of the parsing procedures.
pub type ParseResult<T> = Result<T, ParseError>;

/// The outcome of one spec-level parsing procedure: a value and the
/// position after it, or an error.
pub type Parsed<T> = Result<(T, Position), ParseErrorView>;

/// The outcome of trying to eat one token of a given kind.
pub enum TryEaten {
    /// The token was there; the position is just after it.
    Got(TokenView, Position),
    /// The next token (if any) has another kind; the position only moves
    /// when the look-ahead ran off the end of the source.
    Absent(Position),
    /// The lexer failed.
    Failed(TokenizeErrorView),
}

/// Trying to eat a token of kind `k` at position `p`.
pub open spec fn spec_try_eat(s: Seq<char>, p: Position, k: TokenKindView) -> TryEaten {
    match read_token(s, p) {
        LexStep::Tok(t, q) => if t.kind == k {
            TryEaten::Got(t, q)
        } else {
            TryEaten::Absent(p)
        },
        LexStep::End(q) => TryEaten::Absent(q),
        LexStep::Fail(e) => TryEaten::Failed(e),
    }
}

/// Demanding a token of kind `k` at position `p`.
pub open spec fn spec_eat(s: Seq<char>, p: Position, k: TokenKindView) -> Parsed<TokenView> {
    match read_token(s, p) {
        LexStep::Tok(t, q) => if t.kind == k {
            Ok((t, q))
        } else {
            Err(ParseErrorView::UnexpectedToken { token: t, expected: Some(k) })
        },
        LexStep::End(_) => Err(ParseErrorView::UnexpectedEof { expected: Some(k) }),
        LexStep::Fail(e) => Err(ParseErrorView::TokenizeError(e)),
    }
}

/// The token kinds that end a mixfix component run.
pub open spec fn opcall_terminator(k: TokenKindView) -> bool {
    match k {
        TokenKindView::Comma => true,
        TokenKindView::Dot => true,
        TokenKindView::Colon => true,
        TokenKindView::RightBrace => true,
        TokenKindView::RightBracket => true,
        TokenKindView::RightParenthesis => true,
        _ => false,
    }
}

/// The token kinds that can begin a juxtaposed argument.
pub open spec fn alnum_arg_start(k: TokenKindView) -> bool {
    match k {
        TokenKindView::Identifier(_) => true,
        TokenKindView::StringLiteral(_) => true,
        TokenKindView::NumberLiteral(_) => true,
        TokenKindView::LeftBrace => true,
        TokenKindView::LeftParenthesis => true,
        TokenKindView::LeftBracket => true,
        _ => false,
    }
}

/// Whether a step from `p` to `q` stays inside the source and moves
/// forward; the spec parser only recurses under this guard, which the
/// advancement lemmas show always holds.
pub open spec fn step_ok(s: Seq<char>, p: Position, q: Position) -> bool {
    q.character_index <= s.len() && p.character_index < q.character_index
}

/// The placeholder error of a guarded branch the parser never reaches.
pub open spec fn stuck() -> ParseErrorView {
    ParseErrorView::UnexpectedEof { expected: None }
}

/// Parses one or more `,`-separated chains.
pub open spec fn spec_parse_list(s: Seq<char>, p: Position) -> Parsed<ListView>
    decreases s.len() - p.character_index, 9int,
{
    match spec_parse_right(s, p) {
        Err(e) => Err(e),
        Ok((rae, p1)) => match spec_try_eat(s, p1, TokenKindView::Comma) {
            TryEaten::Failed(e) => Err(ParseErrorView::TokenizeError(e)),
            TryEaten::Absent(q) => Ok((ListView(seq![rae]), q)),
            TryEaten::Got(_, p2) => if step_ok(s, p, p2) {
                match spec_parse_list(s, p2) {
                    Err(e) => Err(e),
                    Ok((rest, p3)) => Ok((ListView(seq![rae] + rest.0), p3)),
                }
            } else {
                Err(stuck())
            },
        },
    }
}

/// Parses a `:`-chain: a left chain, then optionally `:` and a recursive
/// right chain, so that `a : b : c` groups as `a : (b : c)`.
pub open spec fn spec_parse_right(s: Seq<char>, p: Position) -> Parsed<RightAssocExprView>
    decreases s.len() - p.character_index, 8int,
{
    match spec_parse_left(s, p) {
        Err(e) => Err(e),
        Ok((left, p1)) => match spec_try_eat(s, p1, TokenKindView::Colon) {
            TryEaten::Failed(e) => Err(ParseErrorView::TokenizeError(e)),
            TryEaten::Absent(q) => Ok((RightAssocExprView::LeftAssocExpr(left), q)),
            TryEaten::Got(colon, p2) => if step_ok(s, p, p2) {
                match spec_parse_right(s, p2) {
                    Err(e) => Err(e),
                    Ok((right, p3)) => Ok((
                        RightAssocExprView::RightAssocExpr {
                            left,
                            colon,
                            right: Box::new(right),
                        },
                        p3,
                    )),
                }
            } else {
                Err(stuck())
            },
        },
    }
}

/// Parses a `.`-chain: a mixfix call, then a left-folding tail.
pub open spec fn spec_parse_left(s: Seq<char>, p: Position) -> Parsed<LeftAssocExprView>
    decreases s.len() - p.character_index, 7int,
{
    match spec_parse_opcall(s, p) {
        Err(e) => Err(e),
        Ok((o, p1)) => if p1.character_index <= s.len() && p.character_index
            <= p1.character_index {
            spec_parse_left_tail(s, p1, LeftAssocExprView::OperatorFunctionCallLike(o))
        } else {
            Err(stuck())
        },
    }
}

/// Folds `. call` steps onto an accumulator, so that `a . b . c` groups as
/// `(a . b) . c`.
pub open spec fn spec_parse_left_tail(
    s: Seq<char>,
    p: Position,
    acc: LeftAssocExprView,
) -> Parsed<LeftAssocExprView>
    decreases s.len() - p.character_index, 6int,
{
    match spec_try_eat(s, p, TokenKindView::Dot) {
        TryEaten::Failed(e) => Err(ParseErrorView::TokenizeError(e)),
        TryEaten::Absent(q) => Ok((acc, q)),
        TryEaten::Got(dot, p2) => if p2.character_index <= s.len() && p.character_index
            <= p2.character_index {
            match spec_parse_opcall(s, p2) {
                Err(e) => Err(e),
                Ok((right, p3)) => if step_ok(s, p, p3) {
                    spec_parse_left_tail(
                        s,
                        p3,
                        LeftAssocExprView::LeftAssocExpr { left: Box::new(acc), dot, right },
                    )
                } else {
                    Err(stuck())
                },
            }
        } else {
            Err(stuck())
        },
    }
}

/// Parses a mixfix call: one component, then further components up to a
/// terminator.
pub open spec fn spec_parse_opcall(s: Seq<char>, p: Position) -> Parsed<
    OperatorFunctionCallLikeView,
>
    decreases s.len() - p.character_index, 5int,
{
    match spec_parse_component(s, p) {
        Err(e) => Err(e),
        Ok((head, p1)) => if p1.character_index <= s.len() && p.character_index
            <= p1.character_index {
            match spec_parse_opcall_tail(s, p1) {
                Err(e) => Err(e),
                Ok((tail, p2)) => Ok((
                    OperatorFunctionCallLikeView { head, tail },
                    p2,
                )),
            }
        } else {
            Err(stuck())
        },
    }
}

/// Parses mixfix components until a terminator or the end of the source.
pub open spec fn spec_parse_opcall_tail(s: Seq<char>, p: Position) -> Parsed<Seq<ComponentView>>
    decreases s.len() - p.character_index, 4int,
{
    match read_token(s, p) {
        LexStep::Fail(e) => Err(ParseErrorView::TokenizeError(e)),
        LexStep::End(q) => Ok((Seq::empty(), q)),
        LexStep::Tok(t, _) => if opcall_terminator(t.kind) {
            Ok((Seq::empty(), p))
        } else {
            match spec_parse_component(s, p) {
                Err(e) => Err(e),
                Ok((c, p2)) => if step_ok(s, p, p2) {
                    match spec_parse_opcall_tail(s, p2) {
                        Err(e) => Err(e),
                        Ok((rest, p3)) => Ok((seq![c] + rest, p3)),
                    }
                } else {
                    Err(stuck())
                },
            }
        },
    }
}

/// Parses one mixfix component: an operator token, or an alphanumeric call.
pub open spec fn spec_parse_component(s: Seq<char>, p: Position) -> Parsed<ComponentView>
    decreases s.len() - p.character_index, 3int,
{
    match read_token(s, p) {
        LexStep::Fail(e) => Err(ParseErrorView::TokenizeError(e)),
        LexStep::Tok(t, q) => match t.kind {
            TokenKindView::Operator(op) => Ok((ComponentView::Operator(op, t.span), q)),
            _ => match spec_parse_alnum(s, p) {
                Err(e) => Err(e),
                Ok((a, p2)) => Ok((
                    ComponentView::AlphanumericFunctionCallLike(a),
                    p2,
                )),
            },
        },
        LexStep::End(q) => if p.character_index <= q.character_index && q.character_index
            <= s.len() {
            match spec_parse_alnum(s, q) {
                Err(e) => Err(e),
                Ok((a, p2)) => Ok((
                    ComponentView::AlphanumericFunctionCallLike(a),
                    p2,
                )),
            }
        } else {
            Err(stuck())
        },
    }
}

/// Parses an alphanumeric call: an atomic head, then juxtaposed atomic
/// arguments while the look-ahead can begin one.
pub open spec fn spec_parse_alnum(s: Seq<char>, p: Position) -> Parsed<
    AlphanumericFunctionCallLikeView,
>
    decreases s.len() - p.character_index, 2int,
{
    match spec_parse_atomic(s, p) {
        Err(e) => Err(e),
        Ok((head, p1)) => if p1.character_index <= s.len() && p.character_index
            <= p1.character_index {
            match spec_parse_alnum_tail(s, p1) {
                Err(e) => Err(e),
                Ok((tail, p2)) => if tail.len() == 0 {
                    Ok((AlphanumericFunctionCallLikeView::AtomicExpr(head), p2))
                } else {
                    Ok((
                        AlphanumericFunctionCallLikeView::FunctionCallLike(
                            FunctionCallLikeView { head, tail },
                        ),
                        p2,
                    ))
                },
            }
        } else {
            Err(stuck())
        },
    }
}

/// Parses juxtaposed atomic arguments while the look-ahead can begin one.
pub open spec fn spec_parse_alnum_tail(s: Seq<char>, p: Position) -> Parsed<Seq<AtomicExprView>>
    decreases s.len() - p.character_index, 1int,
{
    match read_token(s, p) {
        LexStep::Fail(e) => Err(ParseErrorView::TokenizeError(e)),
        LexStep::End(q) => Ok((Seq::empty(), q)),
        LexStep::Tok(t, _) => if alnum_arg_start(t.kind) {
            match spec_parse_atomic(s, p) {
                Err(e) => Err(e),
                Ok((a, p2)) => if step_ok(s, p, p2) {
                    match spec_parse_alnum_tail(s, p2) {
                        Err(e) => Err(e),
                        Ok((rest, p3)) => Ok((seq![a] + rest, p3)),
                    }
                } else {
                    Err(stuck())
                },
            }
        } else {
            Ok((Seq::empty(), p))
        },
    }
}

/// Parses one atomic expression: a literal or name leaf, or a bracketed
/// group whose closing kind is fixed by the opening token.
pub open spec fn spec_parse_atomic(s: Seq<char>, p: Position) -> Parsed<AtomicExprView>
    decreases s.len() - p.character_index, 0int,
{
    match read_token(s, p) {
        LexStep::Fail(e) => Err(ParseErrorView::TokenizeError(e)),
        LexStep::End(_) => Err(ParseErrorView::UnexpectedEof { expected: None }),
        LexStep::Tok(t, q) => match t.kind {
            TokenKindView::Identifier(v) => Ok((AtomicExprView::Name(v, t.span), q)),
            TokenKindView::StringLiteral(v) => Ok((AtomicExprView::String(v, t.span), q)),
            TokenKindView::NumberLiteral(v) => Ok((AtomicExprView::Number(v, t.span), q)),
            TokenKindView::LeftParenthesis => if step_ok(s, p, q) {
                match spec_parse_group(s, q, t, TokenKindView::RightParenthesis) {
                    Err(e) => Err(e),
                    Ok((g, p2)) => Ok((AtomicExprView::Parenthesized(g), p2)),
                }
            } else {
                Err(stuck())
            },
            TokenKindView::LeftBrace => if step_ok(s, p, q) {
                match spec_parse_group(s, q, t, TokenKindView::RightBrace) {
                    Err(e) => Err(e),
                    Ok((g, p2)) => Ok((AtomicExprView::Parenthesized(g), p2)),
                }
            } else {
                Err(stuck())
            },
            TokenKindView::LeftBracket => if step_ok(s, p, q) {
                match spec_parse_group(s, q, t, TokenKindView::RightBracket) {
                    Err(e) => Err(e),
                    Ok((g, p2)) => Ok((AtomicExprView::Parenthesized(g), p2)),
                }
            } else {
                Err(stuck())
            },
            _ => Err(ParseErrorView::UnexpectedToken { token: t, expected: None }),
        },
    }
}

/// Parses the inside of a bracketed group, the opening token already
/// consumed: an immediately following closing bracket makes an empty group;
/// otherwise a list followed by the closing bracket.
pub open spec fn spec_parse_group(
    s: Seq<char>,
    p: Position,
    open: TokenView,
    close_kind: TokenKindView,
) -> Parsed<ParenthesizedExprView>
    decreases s.len() - p.character_index, 10int,
{
    match read_token(s, p) {
        LexStep::Fail(e) => Err(ParseErrorView::TokenizeError(e)),
        LexStep::End(_) => Err(
            ParseErrorView::UnexpectedEof { expected: Some(close_kind) },
        ),
        LexStep::Tok(t, q) => if t.kind == close_kind {
            Ok((
                ParenthesizedExprView {
                    open,
                    list: Box::new(ListView(Seq::empty())),
                    close: t,
                },
                q,
            ))
        } else {
            match spec_parse_list(s, p) {
                Err(e) => Err(e),
                Ok((lv, p2)) => match spec_eat(s, p2, close_kind) {
                    Err(e) => Err(e),
                    Ok((close, p3)) => Ok((
                        ParenthesizedExprView { open, list: Box::new(lv), close },
                        p3,
                    )),
                },
            }
        },
    }
}

/// Parsing a list from a well-formed position strictly advances to a
/// well-formed position inside the source.
pub proof fn lemma_spec_parse_list(s: Seq<char>, p: Position)
    requires
        p.wf(),
        p.character_index <= s.len(),
        s.len() < usize::MAX,
    ensures
        spec_parse_list(s, p) matches Ok((lv, q)) ==> q.wf() && p.character_index
            < q.character_index && q.character_index <= s.len(),
    decreases s.len() - p.character_index, 9int,
{
    lemma_spec_parse_right(s, p);
    match spec_parse_right(s, p) {
        Err(_) => {},
        Ok((rae, p1)) => {
            lemma_read_token(s, p1);
            match spec_try_eat(s, p1, TokenKindView::Comma) {
                TryEaten::Failed(_) => {},
                TryEaten::Absent(_) => {},
                TryEaten::Got(_, p2) => {
                    if step_ok(s, p, p2) {
                        lemma_spec_parse_list(s, p2);
                    }
                },
            }
        },
    }
}

/// Parsing a `:` chain strictly advances.
pub proof fn lemma_spec_parse_right(s: Seq<char>, p: Position)
    requires
        p.wf(),
        p.character_index <= s.len(),
        s.len() < usize::MAX,
    ensures
        spec_parse_right(s, p) matches Ok((r, q)) ==> q.wf() && p.character_index
            < q.character_index && q.character_index <= s.len(),
    decreases s.len() - p.character_index, 8int,
{
    lemma_spec_parse_left(s, p);
    match spec_parse_left(s, p) {
        Err(_) => {},
        Ok((left, p1)) => {
            lemma_read_token(s, p1);
            match spec_try_eat(s, p1, TokenKindView::Colon) {
                TryEaten::Failed(_) => {},
                TryEaten::Absent(_) => {},
                TryEaten::Got(_, p2) => {
                    if step_ok(s, p, p2) {
                        lemma_spec_parse_right(s, p2);
                    }
                },
            }
        },
    }
}

/// Parsing a `.` chain strictly advances.
pub proof fn lemma_spec_parse_left(s: Seq<char>, p: Position)
    requires
        p.wf(),
        p.character_index <= s.len(),
        s.len() < usize::MAX,
    ensures
        spec_parse_left(s, p) matches Ok((l, q)) ==> q.wf() && p.character_index
            < q.character_index && q.character_index <= s.len(),
    decreases s.len() - p.character_index, 7int,
{
    lemma_spec_parse_opcall(s, p);
    match spec_parse_opcall(s, p) {
        Err(_) => {},
        Ok((o, p1)) => {
            if p1.character_index <= s.len() && p.character_index <= p1.character_index {
                lemma_spec_parse_left_tail(
                    s,
                    p1,
                    LeftAssocExprView::OperatorFunctionCallLike(o),
                );
            }
        },
    }
}

/// Folding `.` steps onto an accumulator advances or stays.
pub proof fn lemma_spec_parse_left_tail(s: Seq<char>, p: Position, acc: LeftAssocExprView)
    requires
        p.wf(),
        p.character_index <= s.len(),
        s.len() < usize::MAX,
    ensures
        spec_parse_left_tail(s, p, acc) matches Ok((l, q)) ==> q.wf() && p.character_index
            <= q.character_index && q.character_index <= s.len(),
    decreases s.len() - p.character_index, 6int,
{
    lemma_read_token(s, p);
    match spec_try_eat(s, p, TokenKindView::Dot) {
        TryEaten::Failed(_) => {},
        TryEaten::Absent(_) => {},
        TryEaten::Got(dot, p2) => {
            if p2.character_index <= s.len() && p.character_index <= p2.character_index {
                lemma_spec_parse_opcall(s, p2);
                match spec_parse_opcall(s, p2) {
                    Err(_) => {},
                    Ok((right, p3)) => {
                        if step_ok(s, p, p3) {
                            lemma_spec_parse_left_tail(
                                s,
                                p3,
                                LeftAssocExprView::LeftAssocExpr {
                                    left: Box::new(acc),
                                    dot,
                                    right,
                                },
                            );
                        }
                    },
                }
            }
        },
    }
}

/// Parsing a mixfix call strictly advances.
pub proof fn lemma_spec_parse_opcall(s: Seq<char>, p: Position)
    requires
        p.wf(),
        p.character_index <= s.len(),
        s.len() < usize::MAX,
    ensures
        spec_parse_opcall(s, p) matches Ok((o, q)) ==> q.wf() && p.character_index
            < q.character_index && q.character_index <= s.len(),
    decreases s.len() - p.character_index, 5int,
{
    lemma_spec_parse_component(s, p);
    match spec_parse_component(s, p) {
        Err(_) => {},
        Ok((head, p1)) => {
            if p1.character_index <= s.len() && p.character_index <= p1.character_index {
                lemma_spec_parse_opcall_tail(s, p1);
            }
        },
    }
}

/// Parsing a mixfix tail advances or stays.
pub proof fn lemma_spec_parse_opcall_tail(s: Seq<char>, p: Position)
    requires
        p.wf(),
        p.character_index <= s.len(),
        s.len() < usize::MAX,
    ensures
        spec_parse_opcall_tail(s, p) matches Ok((cs, q)) ==> q.wf() && p.character_index
            <= q.character_index && q.character_index <= s.len(),
    decreases s.len() - p.character_index, 4int,
{
    lemma_read_token(s, p);
    match read_token(s, p) {
        LexStep::Fail(_) => {},
        LexStep::End(_) => {},
        LexStep::Tok(t, _) => {
            if !opcall_terminator(t.kind) {
                lemma_spec_parse_component(s, p);
                match spec_parse_component(s, p) {
                    Err(_) => {},
                    Ok((c, p2)) => {
                        if step_ok(s, p, p2) {
                            lemma_spec_parse_opcall_tail(s, p2);
                        }
                    },
                }
            }
        },
    }
}

/// Parsing one mixfix component strictly advances.
pub proof fn lemma_spec_parse_component(s: Seq<char>, p: Position)
    requires
        p.wf(),
        p.character_index <= s.len(),
        s.len() < usize::MAX,
    ensures
        spec_parse_component(s, p) matches Ok((c, q)) ==> q.wf() && p.character_index
            < q.character_index && q.character_index <= s.len(),
    decreases s.len() - p.character_index, 3int,
{
    lemma_read_token(s, p);
    match read_token(s, p) {
        LexStep::Fail(_) => {},
        LexStep::Tok(t, q) => {
            match t.kind {
                TokenKindView::Operator(_) => {},
                _ => {
                    lemma_spec_parse_alnum(s, p);
                },
            }
        },
        LexStep::End(q) => {
            if p.character_index <= q.character_index && q.character_index <= s.len() {
                lemma_spec_parse_alnum(s, q);
            }
        },
    }
}

/// Parsing an alphanumeric call strictly advances.
pub proof fn lemma_spec_parse_alnum(s: Seq<char>, p: Position)
    requires
        p.wf(),
        p.character_index <= s.len(),
        s.len() < usize::MAX,
    ensures
        spec_parse_alnum(s, p) matches Ok((a, q)) ==> q.wf() && p.character_index
            < q.character_index && q.character_index <= s.len(),
    decreases s.len() - p.character_index, 2int,
{
    lemma_spec_parse_atomic(s, p);
    match spec_parse_atomic(s, p) {
        Err(_) => {},
        Ok((head, p1)) => {
            if p1.character_index <= s.len() && p.character_index <= p1.character_index {
                lemma_spec_parse_alnum_tail(s, p1);
            }
        },
    }
}

/// Parsing juxtaposed arguments advances or stays.
pub proof fn lemma_spec_parse_alnum_tail(s: Seq<char>, p: Position)
    requires
        p.wf(),
        p.character_index <= s.len(),
        s.len() < usize::MAX,
    ensures
        spec_parse_alnum_tail(s, p) matches Ok((cs, q)) ==> q.wf() && p.character_index
            <= q.character_index && q.character_index <= s.len(),
    decreases s.len() - p.character_index, 1int,
{
    lemma_read_token(s, p);
    match read_token(s, p) {
        LexStep::Fail(_) => {},
        LexStep::End(_) => {},
        LexStep::Tok(t, _) => {
            if alnum_arg_start(t.kind) {
                lemma_spec_parse_atomic(s, p);
                match spec_parse_atomic(s, p) {
                    Err(_) => {},
                    Ok((a, p2)) => {
                        if step_ok(s, p, p2) {
                            lemma_spec_parse_alnum_tail(s, p2);
                        }
                    },
                }
            }
        },
    }
}

/// Parsing one atomic expression strictly advances.
pub proof fn lemma_spec_parse_atomic(s: Seq<char>, p: Position)
    requires
        p.wf(),
        p.character_index <= s.len(),
        s.len() < usize::MAX,
    ensures
        spec_parse_atomic(s, p) matches Ok((a, q)) ==> q.wf() && p.character_index
            < q.character_index && q.character_index <= s.len(),
    decreases s.len() - p.character_index, 0int,
{
    lemma_read_token(s, p);
    match read_token(s, p) {
        LexStep::Fail(_) => {},
        LexStep::End(_) => {},
        LexStep::Tok(t, q) => {
            match t.kind {
                TokenKindView::LeftParenthesis => {
                    if step_ok(s, p, q) {
                        lemma_spec_parse_group(s, q, t, TokenKindView::RightParenthesis);
                    }
                },
                TokenKindView::LeftBrace => {
                    if step_ok(s, p, q) {
                        lemma_spec_parse_group(s, q, t, TokenKindView::RightBrace);
                    }
                },
                TokenKindView::LeftBracket => {
                    if step_ok(s, p, q) {
                        lemma_spec_parse_group(s, q, t, TokenKindView::RightBracket);
                    }
                },
                _ => {},
            }
        },
    }
}

/// Parsing the inside of a bracketed group strictly advances.
pub proof fn lemma_spec_parse_group(
    s: Seq<char>,
    p: Position,
    open: TokenView,
    close_kind: TokenKindView,
)
    requires
        p.wf(),
        p.character_index <= s.len(),
        s.len() < usize::MAX,
    ensures
        spec_parse_group(s, p, open, close_kind) matches Ok((g, q)) ==> q.wf()
            && p.character_index < q.character_index && q.character_index <= s.len(),
    decreases s.len() - p.character_index, 10int,
{
    lemma_read_token(s, p);
    match read_token(s, p) {
        LexStep::Fail(_) => {},
        LexStep::End(_) => {},
        LexStep::Tok(t, q) => {
            if t.kind != close_kind {
                lemma_spec_parse_list(s, p);
                match spec_parse_list(s, p) {
                    Err(_) => {},
                    Ok((lv, p2)) => {
                        lemma_read_token(s, p2);
                    },
                }
            }
        },
    }
}

/// What `parse` returns on source `s`: the empty list on empty input, else
/// the lowering of the top-level list, which must be followed by the end of
/// the source.
pub open spec fn spec_parse_source(s: Seq<char>) -> Result<SexpView, ParseErrorView> {
    let p0 = Position::start();
    match read_token(s, p0) {
        LexStep::Fail(e) => Err(ParseErrorView::TokenizeError(e)),
        LexStep::End(_) => Ok(SexpView::List(Seq::empty())),
        LexStep::Tok(_, _) => match spec_parse_list(s, p0) {
            Err(e) => Err(e),
            Ok((lv, p1)) => match read_token(s, p1) {
                LexStep::Fail(e) => Err(ParseErrorView::TokenizeError(e)),
                LexStep::End(_) => Ok(lower_list(lv)),
                LexStep::Tok(t, _) => Err(
                    ParseErrorView::UnexpectedToken { token: t, expected: None },
                ),
            },
        },
    }
}

/// The recursive-descent parser: it owns the tokenizer and pulls tokens
/// through its one-token look-ahead.
pub struct Parser {
    tokenizer: Tokenizer,
}

impl Parser {
    /// The parser's invariant: its tokenizer's.
    pub closed spec fn wf(self) -> bool {
        self.tokenizer.wf()
    }

    /// The source being parsed.
    pub closed spec fn src(self) -> Seq<char> {
        self.tokenizer.src()
    }

    /// The position of the next token not yet consumed.
    pub closed spec fn cur(self) -> Position {
        self.tokenizer.cur()
    }

    /// Makes a parser over the given source text.
    pub fn new(input_text: &str) -> (r: Parser)
        requires
            input_text@.len() < usize::MAX,
        ensures
            r.wf(),
            r.src() == input_text@,
            r.cur() == Position::start(),
    {
        Parser { tokenizer: Tokenizer::new(input_text) }
    }

    /// Returns and consumes the next token, wrapping lexical errors.
    pub fn next_token(&mut self) -> (r: ParseResult<Option<Token>>)
        requires
            old(self).wf(),
        ensures
            final(self).wf(),
            final(self).src() == old(self).src(),
            match read_token(old(self).src(), old(self).cur()) {
                LexStep::Tok(tv, q) => (r matches Ok(t) && t matches Some(t) && t@ == tv) && final(self).cur() == q,
                LexStep::End(q) => (r matches Ok(t) && t is None) && final(self).cur() == q,
                LexStep::Fail(e) => r matches Err(pe) && pe@ == ParseErrorView::TokenizeError(e),
            },
    {
        match self.tokenizer.next_token() {
            Ok(token) => Ok(token),
            Err(error) => Err(ParseError::TokenizeError(error)),
        }
    }

    /// Returns the next token without consuming it, wrapping lexical
    /// errors.
    pub fn peek_token(&mut self) -> (r: ParseResult<Option<Token>>)
        requires
            old(self).wf(),
        ensures
            final(self).wf(),
            final(self).src() == old(self).src(),
            match read_token(old(self).src(), old(self).cur()) {
                LexStep::Tok(tv, q) => (r matches Ok(t) && t matches Some(t) && t@ == tv) && final(self).cur() == old(self).cur(),
                LexStep::End(q) => (r matches Ok(t) && t is None) && final(self).cur() == q,
                LexStep::Fail(e) => r matches Err(pe) && pe@ == ParseErrorView::TokenizeError(e),
            },
    {
        match self.tokenizer.peek_token() {
            Ok(token) => Ok(token),
            Err(error) => Err(ParseError::TokenizeError(error)),
        }
    }

    /// Demands a token of the expected kind; any other outcome is an error
    /// naming that expectation.
    pub fn eat_token(&mut self, expected_token_kind: TokenKind) -> (r: ParseResult<Token>)
        requires
            old(self).wf(),
        ensures
            final(self).wf(),
            final(self).src() == old(self).src(),
            match spec_eat(old(self).src(), old(self).cur(), expected_token_kind@) {
                Ok((tv, q)) => (r matches Ok(t) && t@ == tv) && final(self).cur() == q,
                Err(ev) => r matches Err(e) && e@ == ev,
            },
    {
        match self.next_token()? {
            Some(token) => {
                if !token.kind.kind_eq(&expected_token_kind) {
                    Err(ParseError::UnexpectedToken {
                        token,
                        expected: Some(expected_token_kind),
                    })
                } else {
                    Ok(token)
                }
            },
            None => Err(ParseError::UnexpectedEof { expected: Some(expected_token_kind) }),
        }
    }

    /// Consumes and returns the next token when it has the given kind.
    pub fn try_eat_token(&mut self, token_kind: TokenKind) -> (r: ParseResult<Option<Token>>)
        requires
            old(self).wf(),
        ensures
            final(self).wf(),
            final(self).src() == old(self).src(),
            match spec_try_eat(old(self).src(), old(self).cur(), token_kind@) {
                TryEaten::Got(tv, q) => (r matches Ok(t) && t matches Some(t) && t@ == tv) && final(self).cur() == q,
                TryEaten::Absent(q) => (r matches Ok(t) && t is None) && final(self).cur() == q,
                TryEaten::Failed(e) => r matches Err(pe) && pe@ == ParseErrorView::TokenizeError(
                    e,
                ),
            },
    {
        match self.peek_token()? {
            Some(token) => {
                if token.kind.kind_eq(&token_kind) {
                    self.next_token()?;
                    Ok(Some(token))
                } else {
                    Ok(None)
                }
            },
            None => Ok(None),
        }
    }

    /// Parses one or more `,`-separated chains.
    pub fn parse_list(&mut self) -> (r: ParseResult<List>)
        requires
            old(self).wf(),
        ensures
            final(self).wf(),
            final(self).src() == old(self).src(),
            match spec_parse_list(old(self).src(), old(self).cur()) {
                Ok((lv, q)) => (r matches Ok(l) && l@ == lv) && final(self).cur() == q,
                Err(ev) => r matches Err(e) && e@ == ev,
            },
        decreases old(self).src().len() - old(self).cur().character_index, 9int,
    {
        let ghost s = self.src();
        let ghost p0 = self.cur();
        proof {
            self.tokenizer.lemma_wf();
            lemma_spec_parse_right(s, p0);
        }
        let right_assoc_expr = self.parse_right_assoc_expr()?;
        proof {
            lemma_read_token(s, self.cur());
        }
        match self.try_eat_token(TokenKind::Comma)? {
            Some(_) => {
                proof {
                    lemma_spec_parse_list(s, self.cur());
                }
                let rest = self.parse_list()?;
                let List(mut exprs) = rest;
                let ghost before = exprs@;
                exprs.insert(0, right_assoc_expr);
                proof {
                    lemma_view_rae_seq(before);
                    lemma_view_rae_seq(exprs@);
                    assert(view_rae_seq(exprs@) =~= seq![exprs@[0]@] + view_rae_seq(before));
                }
                Ok(List(exprs))
            },
            None => {
                let mut exprs: Vec<RightAssocExpr> = Vec::new();
                let ghost e0 = right_assoc_expr@;
                exprs.push(right_assoc_expr);
                proof {
                    lemma_view_rae_seq(exprs@);
                    assert(view_rae_seq(exprs@) =~= seq![e0]);
                }
                Ok(List(exprs))
            },
        }
    }

    /// Parses a `:` chain, right-recursively.
    #[verifier::rlimit(80)]
    pub fn parse_right_assoc_expr(&mut self) -> (r: ParseResult<RightAssocExpr>)
        requires
            old(self).wf(),
        ensures
            final(self).wf(),
            final(self).src() == old(self).src(),
            match spec_parse_right(old(self).src(), old(self).cur()) {
                Ok((rv, q)) => (r matches Ok(e) && e@ == rv) && final(self).cur() == q,
                Err(ev) => r matches Err(e) && e@ == ev,
            },
        decreases old(self).src().len() - old(self).cur().character_index, 8int,
    {
        let ghost s = self.src();
        let ghost p0 = self.cur();
        proof {
            self.tokenizer.lemma_wf();
            lemma_spec_parse_left(s, p0);
        }
        let left = self.parse_left_assoc_expr()?;
        proof {
            lemma_read_token(s, self.cur());
        }
        if let Some(token) = self.try_eat_token(TokenKind::Colon)? {
            proof {
                lemma_spec_parse_right(s, self.cur());
            }
            let right = self.parse_right_assoc_expr()?;
            Ok(RightAssocExpr::RightAssocExpr { left, colon: token, right: Box::new(right) })
        } else {
            Ok(RightAssocExpr::LeftAssocExpr(left))
        }
    }

    /// Parses a `.` chain: one mixfix call, then the left-folding tail.
    pub fn parse_left_assoc_expr(&mut self) -> (r: ParseResult<LeftAssocExpr>)
        requires
            old(self).wf(),
        ensures
            final(self).wf(),
            final(self).src() == old(self).src(),
            match spec_parse_left(old(self).src(), old(self).cur()) {
                Ok((lv, q)) => (r matches Ok(e) && e@ == lv) && final(self).cur() == q,
                Err(ev) => r matches Err(e) && e@ == ev,
            },
        decreases old(self).src().len() - old(self).cur().character_index, 7int,
    {
        let ghost s = self.src();
        let ghost p0 = self.cur();
        proof {
            self.tokenizer.lemma_wf();
            lemma_spec_parse_opcall(s, p0);
        }
        let expr = self.parse_operator_function_call_like()?;
        self.try_parse_left_assoc_expr(LeftAssocExpr::OperatorFunctionCallLike(expr))
    }

    /// Folds `. call` steps onto the accumulated left operand.
    pub fn try_parse_left_assoc_expr(&mut self, leading: LeftAssocExpr) -> (r: ParseResult<
        LeftAssocExpr,
    >)
        requires
            old(self).wf(),
        ensures
            final(self).wf(),
            final(self).src() == old(self).src(),
            match spec_parse_left_tail(old(self).src(), old(self).cur(), leading@) {
                Ok((lv, q)) => (r matches Ok(e) && e@ == lv) && final(self).cur() == q,
                Err(ev) => r matches Err(e) && e@ == ev,
            },
        decreases old(self).src().len() - old(self).cur().character_index, 6int,
    {
        let ghost s = self.src();
        let ghost p0 = self.cur();
        proof {
            self.tokenizer.lemma_wf();
            lemma_read_token(s, p0);
        }
        if let Some(token) = self.try_eat_token(TokenKind::Dot)? {
            proof {
                lemma_spec_parse_opcall(s, self.cur());
            }
            let right = self.parse_operator_function_call_like()?;
            self.try_parse_left_assoc_expr(
                LeftAssocExpr::LeftAssocExpr { left: Box::new(leading), dot: token, right },
            )
        } else {
            Ok(leading)
        }
    }

    /// Parses a mixfix call: a component, then components up to a
    /// terminator.
    pub fn parse_operator_function_call_like(&mut self) -> (r: ParseResult<
        OperatorFunctionCallLike,
    >)
        requires
            old(self).wf(),
        ensures
            final(self).wf(),
            final(self).src() == old(self).src(),
            match spec_parse_opcall(old(self).src(), old(self).cur()) {
                Ok((ov, q)) => (r matches Ok(o) && o@ == ov) && final(self).cur() == q,
                Err(ev) => r matches Err(e) && e@ == ev,
            },
        decreases old(self).src().len() - old(self).cur().character_index, 5int,
    {
        let ghost s = self.src();
        let ghost p0 = self.cur();
        proof {
            self.tokenizer.lemma_wf();
            lemma_spec_parse_component(s, p0);
        }
        let head = self.parse_operator_function_call_like_component()?;
        let tail = self.parse_operator_function_call_like_tail()?;
        Ok(OperatorFunctionCallLike { head, tail })
    }

    /// Parses mixfix components until a terminator or the end of the
    /// source.
    fn parse_operator_function_call_like_tail(&mut self) -> (r: ParseResult<
        Vec<OperatorFunctionCallLikeComponent>,
    >)
        requires
            old(self).wf(),
        ensures
            final(self).wf(),
            final(self).src() == old(self).src(),
            match spec_parse_opcall_tail(old(self).src(), old(self).cur()) {
                Ok((cs, q)) => (r matches Ok(v) && view_comp_seq(v@) == cs) && final(self).cur()
                    == q,
                Err(ev) => r matches Err(e) && e@ == ev,
            },
        decreases old(self).src().len() - old(self).cur().character_index, 4int,
    {
        let ghost s = self.src();
        let ghost p0 = self.cur();
        proof {
            self.tokenizer.lemma_wf();
            lemma_read_token(s, p0);
        }
        match self.peek_token()? {
            None => Ok(Vec::new()),
            Some(token) => {
                if is_opcall_terminator(&token.kind) {
                    Ok(Vec::new())
                } else {
                    proof {
                        lemma_spec_parse_component(s, p0);
                    }
                    let component = self.parse_operator_function_call_like_component()?;
                    proof {
                        lemma_spec_parse_opcall_tail(s, self.cur());
                    }
                    let mut rest = self.parse_operator_function_call_like_tail()?;
                    let ghost before = rest@;
                    rest.insert(0, component);
                    proof {
                        lemma_view_comp_seq(before);
                        lemma_view_comp_seq(rest@);
                        assert(view_comp_seq(rest@) =~= seq![rest@[0]@] + view_comp_seq(before));
                    }
                    Ok(rest)
                }
            },
        }
    }

    /// Parses one mixfix component: an operator token, or an alphanumeric
    /// call.
    pub fn parse_operator_function_call_like_component(&mut self) -> (r: ParseResult<
        OperatorFunctionCallLikeComponent,
    >)
        requires
            old(self).wf(),
        ensures
            final(self).wf(),
            final(self).src() == old(self).src(),
            match spec_parse_component(old(self).src(), old(self).cur()) {
                Ok((cv, q)) => (r matches Ok(c) && c@ == cv) && final(self).cur() == q,
                Err(ev) => r matches Err(e) && e@ == ev,
            },
        decreases old(self).src().len() - old(self).cur().character_index, 3int,
    {
        let ghost s = self.src();
        let ghost p0 = self.cur();
        proof {
            self.tokenizer.lemma_wf();
            lemma_read_token(s, p0);
        }
        match self.peek_token()? {
            Some(token) => {
                match token.kind {
                    TokenKind::Operator(operator) => {
                        self.next_token()?;
                        Ok(OperatorFunctionCallLikeComponent::Operator(
                            Operator { span: token.span, representation: operator },
                        ))
                    },
                    _ => {
                        proof {
                            lemma_spec_parse_alnum(s, self.cur());
                        }
                        Ok(OperatorFunctionCallLikeComponent::AlphanumericFunctionCallLike(
                            self.parse_alphanumeric_function_call_like()?,
                        ))
                    },
                }
            },
            None => {
                proof {
                    lemma_spec_parse_alnum(s, self.cur());
                }
                Ok(OperatorFunctionCallLikeComponent::AlphanumericFunctionCallLike(
                    self.parse_alphanumeric_function_call_like()?,
                ))
            },
        }
    }

    /// Parses an alphanumeric call: an atomic head and any juxtaposed
    /// arguments.
    pub fn parse_alphanumeric_function_call_like(&mut self) -> (r: ParseResult<
        AlphanumericFunctionCallLike,
    >)
        requires
            old(self).wf(),
        ensures
            final(self).wf(),
            final(self).src() == old(self).src(),
            match spec_parse_alnum(old(self).src(), old(self).cur()) {
                Ok((av, q)) => (r matches Ok(a) && a@ == av) && final(self).cur() == q,
                Err(ev) => r matches Err(e) && e@ == ev,
            },
        decreases old(self).src().len() - old(self).cur().character_index, 2int,
    {
        let ghost s = self.src();
        let ghost p0 = self.cur();
        proof {
            self.tokenizer.lemma_wf();
            lemma_spec_parse_atomic(s, p0);
        }
        let head = self.parse_atomic_expr()?;
        proof {
            lemma_spec_parse_alnum_tail(s, self.cur());
        }
        let tail = self.parse_alphanumeric_function_call_like_tail()?;
        if tail.len() == 0 {
            proof {
                lemma_view_atomic_seq(tail@);
            }
            Ok(AlphanumericFunctionCallLike::AtomicExpr(head))
        } else {
            proof {
                lemma_view_atomic_seq(tail@);
            }
            Ok(AlphanumericFunctionCallLike::FunctionCallLike(FunctionCallLike { head, tail }))
        }
    }

    /// Parses juxtaposed atomic arguments while the look-ahead can begin
    /// one.
    fn parse_alphanumeric_function_call_like_tail(&mut self) -> (r: ParseResult<Vec<AtomicExpr>>)
        requires
            old(self).wf(),
        ensures
            final(self).wf(),
            final(self).src() == old(self).src(),
            match spec_parse_alnum_tail(old(self).src(), old(self).cur()) {
                Ok((cs, q)) => (r matches Ok(v) && view_atomic_seq(v@) == cs) && final(self).cur()
                    == q,
                Err(ev) => r matches Err(e) && e@ == ev,
            },
        decreases old(self).src().len() - old(self).cur().character_index, 1int,
    {
        let ghost s = self.src();
        let ghost p0 = self.cur();
        proof {
            self.tokenizer.lemma_wf();
            lemma_read_token(s, p0);
        }
        match self.peek_token()? {
            None => Ok(Vec::new()),
            Some(token) => {
                if is_alnum_arg_start(&token.kind) {
                    proof {
                        lemma_spec_parse_atomic(s, p0);
                    }
                    let arg = self.parse_atomic_expr()?;
                    proof {
                        lemma_spec_parse_alnum_tail(s, self.cur());
                    }
                    let mut rest = self.parse_alphanumeric_function_call_like_tail()?;
                    let ghost before = rest@;
                    rest.insert(0, arg);
                    proof {
                        lemma_view_atomic_seq(before);
                        lemma_view_atomic_seq(rest@);
                        assert(view_atomic_seq(rest@) =~= seq![rest@[0]@] + view_atomic_seq(
                            before,
                        ));
                    }
                    Ok(rest)
                } else {
                    Ok(Vec::new())
                }
            },
        }
    }

    /// Parses one atomic expression; an opening bracket fixes the closing
    /// kind that its group must end with.
    #[verifier::rlimit(80)]
    pub fn parse_atomic_expr(&mut self) -> (r: ParseResult<AtomicExpr>)
        requires
            old(self).wf(),
        ensures
            final(self).wf(),
            final(self).src() == old(self).src(),
            match spec_parse_atomic(old(self).src(), old(self).cur()) {
                Ok((av, q)) => (r matches Ok(a) && a@ == av) && final(self).cur() == q,
                Err(ev) => r matches Err(e) && e@ == ev,
            },
        decreases old(self).src().len() - old(self).cur().character_index, 0int,
    {
        let ghost s = self.src();
        let ghost p0 = self.cur();
        proof {
            self.tokenizer.lemma_wf();
            lemma_read_token(s, p0);
        }
        if let Some(token) = self.next_token()? {
            let expr = match token.kind {
                TokenKind::Identifier(value) => AtomicExpr::Name(
                    LiteralName { value, span: token.span },
                ),
                TokenKind::StringLiteral(value) => AtomicExpr::String(
                    LiteralString { value, span: token.span },
                ),
                TokenKind::NumberLiteral(value) => AtomicExpr::Number(
                    LiteralNumber { value, span: token.span },
                ),
                TokenKind::LeftParenthesis => AtomicExpr::Parenthesized(
                    self.parse_list_ending_with(token, TokenKind::RightParenthesis)?,
                ),
                TokenKind::LeftBrace => AtomicExpr::Parenthesized(
                    self.parse_list_ending_with(token, TokenKind::RightBrace)?,
                ),
                TokenKind::LeftBracket => AtomicExpr::Parenthesized(
                    self.parse_list_ending_with(token, TokenKind::RightBracket)?,
                ),
                _ => {
                    return Err(ParseError::UnexpectedToken { token, expected: None });
                },
            };
            Ok(expr)
        } else {
            Err(ParseError::UnexpectedEof { expected: None })
        }
    }

    /// Parses the rest of a bracketed group, the opening token already
    /// consumed: an immediately following closing bracket makes an empty
    /// group, otherwise a list followed by the closing bracket.
    pub fn parse_list_ending_with(&mut self, open: Token, close_kind: TokenKind) -> (r:
        ParseResult<ParenthesizedExpr>)
        requires
            old(self).wf(),
        ensures
            final(self).wf(),
            final(self).src() == old(self).src(),
            match spec_parse_group(old(self).src(), old(self).cur(), open@, close_kind@) {
                Ok((gv, q)) => (r matches Ok(g) && g@ == gv) && final(self).cur() == q,
                Err(ev) => r matches Err(e) && e@ == ev,
            },
        decreases old(self).src().len() - old(self).cur().character_index, 10int,
    {
        let ghost s = self.src();
        let ghost p0 = self.cur();
        proof {
            self.tokenizer.lemma_wf();
            lemma_read_token(s, p0);
        }
        match self.peek_token()? {
            Some(token) => {
                if token.kind.kind_eq(&close_kind) {
                    self.next_token()?;
                    let empty: Vec<RightAssocExpr> = Vec::new();
                    Ok(ParenthesizedExpr { open, list: List(empty), close: token })
                } else {
                    proof {
                        lemma_spec_parse_list(s, p0);
                    }
                    let list = self.parse_list()?;
                    let close = self.eat_token(close_kind)?;
                    Ok(ParenthesizedExpr { open, close, list })
                }
            },
            None => Err(ParseError::UnexpectedEof { expected: Some(close_kind) }),
        }
    }
}

/// Whether this token kind ends a mixfix component run.
fn is_opcall_terminator(k: &TokenKind) -> (r: bool)
    ensures
        r == opcall_terminator(k@),
{
    match k {
        TokenKind::Comma => true,
        TokenKind::Dot => true,
        TokenKind::Colon => true,
        TokenKind::RightBrace => true,
        TokenKind::RightBracket => true,
        TokenKind::RightParenthesis => true,
        _ => false,
    }
}

/// Whether this token kind can begin a juxtaposed argument.
fn is_alnum_arg_start(k: &TokenKind) -> (r: bool)
    ensures
        r == alnum_arg_start(k@),
{
    match k {
        TokenKind::Identifier(_) => true,
        TokenKind::StringLiteral(_) => true,
        TokenKind::NumberLiteral(_) => true,
        TokenKind::LeftBrace => true,
        TokenKind::LeftParenthesis => true,
        TokenKind::LeftBracket => true,
        _ => false,
    }
}

/// Parses a source text to its canonical S-expression: the empty list on
/// empty input, else the lowering of the top-level list, which must be
/// followed by the end of the source.
pub fn parse(source: &str) -> (r: Result<Sexp, ParseError>)
    requires
        source@.len() < usize::MAX,
    ensures
        match spec_parse_source(source@) {
            Ok(sv) => r matches Ok(sexp) && sexp@ == sv,
            Err(ev) => r matches Err(e) && e@ == ev,
        },
{
    let ghost s = source@;
    let mut parser = Parser::new(source);
    proof {
        parser.tokenizer.lemma_wf();
        lemma_read_token(s, parser.cur());
    }
    match parser.peek_token()? {
        None => {
            let empty: Vec<Sexp> = Vec::new();
            Ok(Sexp::List(empty))
        },
        Some(_) => {
            proof {
                lemma_spec_parse_list(s, Position::start());
            }
            let list = parser.parse_list()?;
            proof {
                lemma_read_token(s, parser.cur());
            }
            match parser.next_token()? {
                None => Ok(list.to_sexp()),
                Some(token) => Err(ParseError::UnexpectedToken { token, expected: None }),
            }
        },
    }
}

} // verus!
