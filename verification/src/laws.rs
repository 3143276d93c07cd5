//! The library's laws: properties relating several operations, stated and
//! proved over the spec-level models that the executable functions'
//! contracts are written against.
//!
//! Determinism of lexing and parsing needs no lemma here: `next_token`,
//! `peek_token` and `parse` each promise a result equal to a spec function
//! of the source alone, so two runs over equal sources agree by
//! congruence.

use vstd::prelude::*;

use crate::cst::LeftAssocExprView;
use crate::cst::OperatorFunctionCallLikeView;
use crate::cst::RightAssocExprView;
use crate::host::whitespace;
use crate::parser::lemma_spec_parse_left;
use crate::parser::lemma_spec_parse_list;
use crate::parser::lemma_spec_parse_opcall;
use crate::parser::spec_parse_left;
use crate::parser::spec_parse_left_tail;
use crate::parser::spec_parse_list;
use crate::parser::spec_parse_opcall;
use crate::parser::spec_parse_right;
use crate::parser::spec_parse_source;
use crate::parser::spec_try_eat;
use crate::parser::TryEaten;
use crate::position::Position;
use crate::sexp::lower_lae;
use crate::sexp::lower_op_call;
use crate::sexp::lower_rae;
use crate::sexp::splice_colon;
use crate::sexp::splice_dot;
use crate::token::TokenKindView;
use crate::token::TokenView;
use crate::tokenizer::in_input;
use crate::tokenizer::lemma_read_token;
use crate::tokenizer::lemma_skip_ws;
use crate::tokenizer::LexStep;
use crate::tokenizer::read_token;
use crate::tokenizer::skip_ws;

verus! {

/// Every code point passed over by the whitespace skipper is whitespace.
pub proof fn lemma_skip_ws_whitespace(s: Seq<char>, p: Position)
    requires
        p.wf(),
        p.character_index <= s.len(),
        s.len() < usize::MAX,
    ensures
        forall|i: int|
            p.character_index <= i < skip_ws(s, p).character_index ==> whitespace(s[i]),
    decreases s.len() - p.character_index,
{
    lemma_skip_ws(s, p);
    if in_input(s, p) && whitespace(s[p.character_index as int]) {
        crate::position::lemma_advance_wf(p, s[p.character_index as int]);
        lemma_skip_ws_whitespace(s, p.advance(s[p.character_index as int]));
    }
}

/// Lex total coverage: one lexing step consumes nothing but whitespace
/// before the token it returns, the token's span ends exactly where the
/// lexer stops, and the end of the token stream is reached only at the end
/// of the source, with everything in between whitespace. So the code
/// points consumed by the lexer are exactly the source minus the
/// whitespace inside token gaps.
pub proof fn lemma_lex_total_coverage(s: Seq<char>, p: Position)
    requires
        p.wf(),
        p.character_index <= s.len(),
        s.len() < usize::MAX,
    ensures
        read_token(s, p) matches LexStep::Tok(t, q) ==> {
            &&& t.span.start == skip_ws(s, p)
            &&& forall|i: int|
                p.character_index <= i < t.span.start.character_index ==> whitespace(s[i])
            &&& t.span.end == q
        },
        read_token(s, p) matches LexStep::End(q) ==> q.character_index == s.len() && forall|
            i: int,
        |
            p.character_index <= i < s.len() ==> whitespace(s[i]),
{
    lemma_skip_ws(s, p);
    lemma_skip_ws_whitespace(s, p);
    lemma_read_token(s, p);
}

/// Lex total coverage at the parse boundary: when `parse` succeeds, the
/// top-level list parse is followed by nothing but whitespace, and an
/// empty parse means the whole source was whitespace.
pub proof fn lemma_parse_success_consumes_source(s: Seq<char>)
    requires
        s.len() < usize::MAX,
        spec_parse_source(s) is Ok,
    ensures
        read_token(s, Position::start()) matches LexStep::End(q) ==> forall|i: int|
            0 <= i < s.len() ==> whitespace(s[i]),
        match spec_parse_list(s, Position::start()) {
            Ok((lv, p1)) => (read_token(s, Position::start()) matches LexStep::Tok(t0, q0))
                ==> forall|i: int| p1.character_index <= i < s.len() ==> whitespace(s[i]),
            Err(_) => true,
        },
{
    let p0 = Position::start();
    lemma_lex_total_coverage(s, p0);
    if read_token(s, p0) matches LexStep::Tok(t0, q0) {
        match spec_parse_list(s, p0) {
            Ok((lv, p1)) => {
                lemma_spec_parse_list(s, p0);
                lemma_lex_total_coverage(s, p1);
            },
            Err(_) => {},
        }
    }
}

/// One folding step of the `.` tail: a dot and a call extend the
/// accumulator.
proof fn lemma_left_tail_step(
    s: Seq<char>,
    p: Position,
    acc: LeftAssocExprView,
    d: TokenView,
    p2: Position,
    b: OperatorFunctionCallLikeView,
    p3: Position,
)
    requires
        p.wf(),
        p.character_index <= s.len(),
        s.len() < usize::MAX,
        spec_try_eat(s, p, TokenKindView::Dot) == TryEaten::Got(d, p2),
        spec_parse_opcall(s, p2) matches Ok(r) && r == (b, p3),
    ensures
        p3.wf(),
        p.character_index < p3.character_index,
        p3.character_index <= s.len(),
        spec_parse_left_tail(s, p, acc) == spec_parse_left_tail(
            s,
            p3,
            LeftAssocExprView::LeftAssocExpr { left: Box::new(acc), dot: d, right: b },
        ),
{
    lemma_read_token(s, p);
    lemma_spec_parse_opcall(s, p2);
}

/// A `.` chain begins with its first mixfix call as the accumulator.
proof fn lemma_left_start(
    s: Seq<char>,
    p: Position,
    a: OperatorFunctionCallLikeView,
    p1: Position,
)
    requires
        p.wf(),
        p.character_index <= s.len(),
        s.len() < usize::MAX,
        spec_parse_opcall(s, p) matches Ok(r) && r == (a, p1),
    ensures
        p1.wf(),
        p.character_index < p1.character_index,
        p1.character_index <= s.len(),
        spec_parse_left(s, p) == spec_parse_left_tail(
            s,
            p1,
            LeftAssocExprView::OperatorFunctionCallLike(a),
        ),
{
    lemma_spec_parse_opcall(s, p);
}

/// The `.` tail stops where no dot follows.
proof fn lemma_left_tail_stop(s: Seq<char>, p: Position, acc: LeftAssocExprView, q: Position)
    requires
        p.wf(),
        p.character_index <= s.len(),
        s.len() < usize::MAX,
        spec_try_eat(s, p, TokenKindView::Dot) == TryEaten::Absent(q),
    ensures
        spec_parse_left_tail(s, p, acc) matches Ok(r) && r == (acc, q),
{
    lemma_read_token(s, p);
}

/// Associativity of `.`: when three mixfix calls stand separated by dots
/// and no further dot follows, the chain parses as the left-nested tree
/// `(a . b) . c`, and therefore lowers as the `.` combination applied
/// left-nested.
#[verifier::rlimit(100)]
#[verifier::spinoff_prover]
pub proof fn lemma_dot_chain_associates_left(
    s: Seq<char>,
    p: Position,
    a: OperatorFunctionCallLikeView,
    p1: Position,
    d1: TokenView,
    p2: Position,
    b: OperatorFunctionCallLikeView,
    p3: Position,
    d2: TokenView,
    p4: Position,
    c: OperatorFunctionCallLikeView,
    p5: Position,
    p6: Position,
)
    requires
        p.wf(),
        p.character_index <= s.len(),
        s.len() < usize::MAX,
        spec_parse_opcall(s, p) matches Ok(r) && r == (a, p1),
        spec_try_eat(s, p1, TokenKindView::Dot) == TryEaten::Got(d1, p2),
        spec_parse_opcall(s, p2) matches Ok(r) && r == (b, p3),
        spec_try_eat(s, p3, TokenKindView::Dot) == TryEaten::Got(d2, p4),
        spec_parse_opcall(s, p4) matches Ok(r) && r == (c, p5),
        spec_try_eat(s, p5, TokenKindView::Dot) == TryEaten::Absent(p6),
    ensures
        spec_parse_left(s, p) matches Ok(r) && r == (
            LeftAssocExprView::LeftAssocExpr {
                left: Box::new(
                    LeftAssocExprView::LeftAssocExpr {
                        left: Box::new(LeftAssocExprView::OperatorFunctionCallLike(a)),
                        dot: d1,
                        right: b,
                    },
                ),
                dot: d2,
                right: c,
            },
            p6,
        ),
{
    let acc0 = LeftAssocExprView::OperatorFunctionCallLike(a);
    let acc1 = LeftAssocExprView::LeftAssocExpr { left: Box::new(acc0), dot: d1, right: b };
    let acc2 = LeftAssocExprView::LeftAssocExpr { left: Box::new(acc1), dot: d2, right: c };
    lemma_left_start(s, p, a, p1);
    lemma_left_tail_step(s, p1, acc0, d1, p2, b, p3);
    lemma_left_tail_step(s, p3, acc1, d2, p4, c, p5);
    lemma_left_tail_stop(s, p5, acc2, p6);
}

/// The lowering of a left-nested `.` chain is the `.` combination applied
/// left-nested to the lowered calls.
pub proof fn lemma_lower_dot_chain(
    a: OperatorFunctionCallLikeView,
    d1: TokenView,
    b: OperatorFunctionCallLikeView,
    d2: TokenView,
    c: OperatorFunctionCallLikeView,
)
    ensures
        lower_lae(
            LeftAssocExprView::LeftAssocExpr {
                left: Box::new(
                    LeftAssocExprView::LeftAssocExpr {
                        left: Box::new(LeftAssocExprView::OperatorFunctionCallLike(a)),
                        dot: d1,
                        right: b,
                    },
                ),
                dot: d2,
                right: c,
            },
        ) == splice_dot(splice_dot(lower_op_call(a), lower_op_call(b)), lower_op_call(c)),
{
    reveal_with_fuel(lower_lae, 4);
}

/// One step of the `:` chain: a left chain and a colon prefix a recursive
/// right chain.
proof fn lemma_right_step(
    s: Seq<char>,
    p: Position,
    a: LeftAssocExprView,
    p1: Position,
    c1: TokenView,
    p2: Position,
    inner: RightAssocExprView,
    p6: Position,
)
    requires
        p.wf(),
        p.character_index <= s.len(),
        s.len() < usize::MAX,
        spec_parse_left(s, p) matches Ok(r) && r == (a, p1),
        spec_try_eat(s, p1, TokenKindView::Colon) == TryEaten::Got(c1, p2),
        spec_parse_right(s, p2) matches Ok(r) && r == (inner, p6),
    ensures
        spec_parse_right(s, p) matches Ok(r) && r == (
            RightAssocExprView::RightAssocExpr { left: a, colon: c1, right: Box::new(inner) },
            p6,
        ),
{
    lemma_spec_parse_left(s, p);
    lemma_read_token(s, p1);
}

/// The `:` chain stops where no colon follows.
proof fn lemma_right_stop(
    s: Seq<char>,
    p: Position,
    a: LeftAssocExprView,
    p1: Position,
    q: Position,
)
    requires
        p.wf(),
        p.character_index <= s.len(),
        s.len() < usize::MAX,
        spec_parse_left(s, p) matches Ok(r) && r == (a, p1),
        spec_try_eat(s, p1, TokenKindView::Colon) == TryEaten::Absent(q),
    ensures
        spec_parse_right(s, p) matches Ok(r) && r == (RightAssocExprView::LeftAssocExpr(a), q),
{
    lemma_spec_parse_left(s, p);
    lemma_read_token(s, p1);
}

/// Associativity of `:`: when three `.`-chains stand separated by colons
/// and no further colon follows, the chain parses as the right-nested tree
/// `a : (b : c)`, and therefore lowers as the `:` combination applied
/// right-nested.
#[verifier::rlimit(100)]
#[verifier::spinoff_prover]
pub proof fn lemma_colon_chain_associates_right(
    s: Seq<char>,
    p: Position,
    a: LeftAssocExprView,
    p1: Position,
    c1: TokenView,
    p2: Position,
    b: LeftAssocExprView,
    p3: Position,
    c2: TokenView,
    p4: Position,
    c: LeftAssocExprView,
    p5: Position,
    p6: Position,
)
    requires
        p.wf(),
        p.character_index <= s.len(),
        s.len() < usize::MAX,
        spec_parse_left(s, p) matches Ok(r) && r == (a, p1),
        spec_try_eat(s, p1, TokenKindView::Colon) == TryEaten::Got(c1, p2),
        spec_parse_left(s, p2) matches Ok(r) && r == (b, p3),
        spec_try_eat(s, p3, TokenKindView::Colon) == TryEaten::Got(c2, p4),
        spec_parse_left(s, p4) matches Ok(r) && r == (c, p5),
        spec_try_eat(s, p5, TokenKindView::Colon) == TryEaten::Absent(p6),
    ensures
        spec_parse_right(s, p) matches Ok(r) && r == (
            RightAssocExprView::RightAssocExpr {
                left: a,
                colon: c1,
                right: Box::new(
                    RightAssocExprView::RightAssocExpr {
                        left: b,
                        colon: c2,
                        right: Box::new(RightAssocExprView::LeftAssocExpr(c)),
                    },
                ),
            },
            p6,
        ),
{
    lemma_spec_parse_left(s, p);
    lemma_read_token(s, p1);
    lemma_spec_parse_left(s, p2);
    lemma_read_token(s, p3);
    let single = RightAssocExprView::LeftAssocExpr(c);
    let inner = RightAssocExprView::RightAssocExpr { left: b, colon: c2, right: Box::new(single) };
    lemma_right_stop(s, p4, c, p5, p6);
    lemma_right_step(s, p2, b, p3, c2, p4, single, p6);
    lemma_right_step(s, p, a, p1, c1, p2, inner, p6);
}

/// The lowering of a right-nested `:` chain is the `:` combination applied
/// right-nested to the lowered chains.
pub proof fn lemma_lower_colon_chain(
    a: LeftAssocExprView,
    c1: TokenView,
    b: LeftAssocExprView,
    c2: TokenView,
    c: LeftAssocExprView,
)
    ensures
        lower_rae(
            RightAssocExprView::RightAssocExpr {
                left: a,
                colon: c1,
                right: Box::new(
                    RightAssocExprView::RightAssocExpr {
                        left: b,
                        colon: c2,
                        right: Box::new(RightAssocExprView::LeftAssocExpr(c)),
                    },
                ),
            },
        ) == splice_colon(lower_lae(a), splice_colon(lower_lae(b), lower_lae(c))),
{
    reveal_with_fuel(lower_rae, 4);
}

} // verus!
