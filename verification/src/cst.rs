//! The concrete syntax tree: five grammar strata, innermost outward, each
//! node keeping the tokens it was built from so that spans can be
//! reconstructed. Every type has a mathematical view; the executable span
//! functions are specified against the views.

use vstd::prelude::*;

use crate::position::Span;
use crate::token::Token;
use crate::token::TokenView;

verus! {

broadcast use vstd::std_specs::vec::axiom_vec_decreases_to_view, vstd::seq::axiom_seq_index_decreases, vstd::seq::axiom_seq_subrange_decreases;

/// The views of a sequence of comma-separated elements.
pub open spec fn view_rae_seq(s: Seq<RightAssocExpr>) -> Seq<RightAssocExprView>
    decreases s,
{
    if s.len() == 0 {
        Seq::empty()
    } else {
        view_rae_seq(s.drop_last()).push(s.last()@)
    }
}

/// The views of a sequence of mixfix components.
pub open spec fn view_comp_seq(s: Seq<OperatorFunctionCallLikeComponent>) -> Seq<ComponentView>
    decreases s,
{
    if s.len() == 0 {
        Seq::empty()
    } else {
        view_comp_seq(s.drop_last()).push(s.last()@)
    }
}

/// The views of a sequence of atomic expressions.
pub open spec fn view_atomic_seq(s: Seq<AtomicExpr>) -> Seq<AtomicExprView>
    decreases s,
{
    if s.len() == 0 {
        Seq::empty()
    } else {
        view_atomic_seq(s.drop_last()).push(s.last()@)
    }
}

/// `view_rae_seq` maps the view over the sequence, element by element.
pub proof fn lemma_view_rae_seq(s: Seq<RightAssocExpr>)
    ensures
        view_rae_seq(s).len() == s.len(),
        forall|i: int| 0 <= i < s.len() ==> view_rae_seq(s)[i] == s[i]@,
    decreases s.len(),
{
    if s.len() > 0 {
        lemma_view_rae_seq(s.drop_last());
        assert(view_rae_seq(s) == view_rae_seq(s.drop_last()).push(s.last()@));
        assert forall|i: int| 0 <= i < s.len() implies view_rae_seq(s)[i] == s[i]@ by {
            if i < s.len() - 1 {
                assert(s.drop_last()[i] == s[i]);
                assert(view_rae_seq(s.drop_last()).push(s.last()@)[i] == view_rae_seq(
                    s.drop_last(),
                )[i]);
            }
        }
    }
}

/// Viewing after a push is pushing the view.
pub proof fn lemma_view_rae_seq_push(s: Seq<RightAssocExpr>, x: RightAssocExpr)
    ensures
        view_rae_seq(s.push(x)) == view_rae_seq(s).push(x@),
{
    assert(s.push(x).drop_last() =~= s);
    assert(s.push(x).last() == x);
}

/// `view_comp_seq` maps the view over the sequence, element by element.
pub proof fn lemma_view_comp_seq(s: Seq<OperatorFunctionCallLikeComponent>)
    ensures
        view_comp_seq(s).len() == s.len(),
        forall|i: int| 0 <= i < s.len() ==> view_comp_seq(s)[i] == s[i]@,
    decreases s.len(),
{
    if s.len() > 0 {
        lemma_view_comp_seq(s.drop_last());
        assert(view_comp_seq(s) == view_comp_seq(s.drop_last()).push(s.last()@));
        assert forall|i: int| 0 <= i < s.len() implies view_comp_seq(s)[i] == s[i]@ by {
            if i < s.len() - 1 {
                assert(s.drop_last()[i] == s[i]);
                assert(view_comp_seq(s.drop_last()).push(s.last()@)[i] == view_comp_seq(
                    s.drop_last(),
                )[i]);
            }
        }
    }
}

/// Viewing after a push is pushing the view.
pub proof fn lemma_view_comp_seq_push(s: Seq<OperatorFunctionCallLikeComponent>, x: OperatorFunctionCallLikeComponent)
    ensures
        view_comp_seq(s.push(x)) == view_comp_seq(s).push(x@),
{
    assert(s.push(x).drop_last() =~= s);
    assert(s.push(x).last() == x);
}

/// `view_atomic_seq` maps the view over the sequence, element by element.
pub proof fn lemma_view_atomic_seq(s: Seq<AtomicExpr>)
    ensures
        view_atomic_seq(s).len() == s.len(),
        forall|i: int| 0 <= i < s.len() ==> view_atomic_seq(s)[i] == s[i]@,
    decreases s.len(),
{
    if s.len() > 0 {
        lemma_view_atomic_seq(s.drop_last());
        assert(view_atomic_seq(s) == view_atomic_seq(s.drop_last()).push(s.last()@));
        assert forall|i: int| 0 <= i < s.len() implies view_atomic_seq(s)[i] == s[i]@ by {
            if i < s.len() - 1 {
                assert(s.drop_last()[i] == s[i]);
                assert(view_atomic_seq(s.drop_last()).push(s.last()@)[i] == view_atomic_seq(
                    s.drop_last(),
                )[i]);
            }
        }
    }
}

/// Viewing after a push is pushing the view.
pub proof fn lemma_view_atomic_seq_push(s: Seq<AtomicExpr>, x: AtomicExpr)
    ensures
        view_atomic_seq(s.push(x)) == view_atomic_seq(s).push(x@),
{
    assert(s.push(x).drop_last() =~= s);
    assert(s.push(x).last() == x);
}

/// One or more chain expressions separated by commas.
#[derive(Debug)]
pub struct List(pub Vec<RightAssocExpr>);

/// Chains separated by `:`, associating to the right.
#[derive(Debug)]
pub enum RightAssocExpr {
    RightAssocExpr { left: LeftAssocExpr, colon: Token, right: Box<RightAssocExpr> },
    LeftAssocExpr(LeftAssocExpr),
}

/// Chains separated by `.`, associating to the left.
#[derive(Debug)]
pub enum LeftAssocExpr {
    LeftAssocExpr { left: Box<LeftAssocExpr>, dot: Token, right: OperatorFunctionCallLike },
    OperatorFunctionCallLike(OperatorFunctionCallLike),
}

/// A non-empty run of mixfix components: operators and alphanumeric calls.
#[derive(Debug)]
pub struct OperatorFunctionCallLike {
    pub head: OperatorFunctionCallLikeComponent,
    pub tail: Vec<OperatorFunctionCallLikeComponent>,
}

/// One mixfix component.
#[derive(Debug)]
pub enum OperatorFunctionCallLikeComponent {
    Operator(Operator),
    AlphanumericFunctionCallLike(AlphanumericFunctionCallLike),
}

/// An operator token lifted into the tree, keeping its textual form.
#[derive(Debug)]
pub struct Operator {
    pub representation: String,
    pub span: Span,
}

/// An atomic expression, possibly applied to juxtaposed arguments.
#[derive(Debug)]
pub enum AlphanumericFunctionCallLike {
    FunctionCallLike(FunctionCallLike),
    AtomicExpr(AtomicExpr),
}

/// A head atomic expression with one or more juxtaposed arguments.
#[derive(Debug)]
pub struct FunctionCallLike {
    pub head: AtomicExpr,
    pub tail: Vec<AtomicExpr>,
}

/// The innermost stratum: a literal, a name, or a parenthesised list.
#[derive(Debug)]
pub enum AtomicExpr {
    String(LiteralString),
    Number(LiteralNumber),
    Parenthesized(ParenthesizedExpr),
    Name(LiteralName),
}

/// A list enclosed by any of the three bracket shapes; the opening and
/// closing tokens are retained for their spans.
#[derive(Debug)]
pub struct ParenthesizedExpr {
    pub open: Token,
    pub list: List,
    pub close: Token,
}

/// A string literal with its decoded text.
#[derive(Debug)]
pub struct LiteralString {
    pub value: String,
    pub span: Span,
}

/// A name (identifier, or a synthesised function name).
#[derive(Debug)]
pub struct LiteralName {
    pub value: String,
    pub span: Span,
}

/// A number literal, kept as its source text.
#[derive(Debug)]
pub struct LiteralNumber {
    pub value: String,
    pub span: Span,
}

/// View of `List`.
pub struct ListView(pub Seq<RightAssocExprView>);

/// View of `RightAssocExpr`.
pub enum RightAssocExprView {
    RightAssocExpr { left: LeftAssocExprView, colon: TokenView, right: Box<RightAssocExprView> },
    LeftAssocExpr(LeftAssocExprView),
}

/// View of `LeftAssocExpr`.
pub enum LeftAssocExprView {
    LeftAssocExpr { left: Box<LeftAssocExprView>, dot: TokenView, right: OperatorFunctionCallLikeView },
    OperatorFunctionCallLike(OperatorFunctionCallLikeView),
}

/// View of `OperatorFunctionCallLike`.
pub struct OperatorFunctionCallLikeView {
    pub head: ComponentView,
    pub tail: Seq<ComponentView>,
}

/// View of `OperatorFunctionCallLikeComponent`.
pub enum ComponentView {
    Operator(Seq<char>, Span),
    AlphanumericFunctionCallLike(AlphanumericFunctionCallLikeView),
}

/// View of `AlphanumericFunctionCallLike`.
pub enum AlphanumericFunctionCallLikeView {
    FunctionCallLike(FunctionCallLikeView),
    AtomicExpr(AtomicExprView),
}

/// View of `FunctionCallLike`.
pub struct FunctionCallLikeView {
    pub head: AtomicExprView,
    pub tail: Seq<AtomicExprView>,
}

/// View of `AtomicExpr`.
pub enum AtomicExprView {
    String(Seq<char>, Span),
    Number(Seq<char>, Span),
    Parenthesized(ParenthesizedExprView),
    Name(Seq<char>, Span),
}

/// View of `ParenthesizedExpr`.
pub struct ParenthesizedExprView {
    pub open: TokenView,
    pub list: Box<ListView>,
    pub close: TokenView,
}

impl View for List {
    type V = ListView;

    open spec fn view(&self) -> ListView
        decreases self,
    {
        ListView(view_rae_seq(self.0@))
    }
}

impl View for RightAssocExpr {
    type V = RightAssocExprView;

    open spec fn view(&self) -> RightAssocExprView
        decreases self,
    {
        match self {
            RightAssocExpr::RightAssocExpr { left, colon, right } => {
                RightAssocExprView::RightAssocExpr {
                    left: left@,
                    colon: colon@,
                    right: Box::new((**right)@),
                }
            },
            RightAssocExpr::LeftAssocExpr(e) => RightAssocExprView::LeftAssocExpr(e@),
        }
    }
}

impl View for LeftAssocExpr {
    type V = LeftAssocExprView;

    open spec fn view(&self) -> LeftAssocExprView
        decreases self,
    {
        match self {
            LeftAssocExpr::LeftAssocExpr { left, dot, right } => LeftAssocExprView::LeftAssocExpr {
                left: Box::new((**left)@),
                dot: dot@,
                right: right@,
            },
            LeftAssocExpr::OperatorFunctionCallLike(e) => {
                LeftAssocExprView::OperatorFunctionCallLike(e@)
            },
        }
    }
}

impl View for OperatorFunctionCallLike {
    type V = OperatorFunctionCallLikeView;

    open spec fn view(&self) -> OperatorFunctionCallLikeView
        decreases self,
    {
        OperatorFunctionCallLikeView {
            head: self.head@,
            tail: view_comp_seq(self.tail@),
        }
    }
}

impl View for OperatorFunctionCallLikeComponent {
    type V = ComponentView;

    open spec fn view(&self) -> ComponentView
        decreases self,
    {
        match self {
            OperatorFunctionCallLikeComponent::Operator(o) => ComponentView::Operator(
                o.representation@,
                o.span,
            ),
            OperatorFunctionCallLikeComponent::AlphanumericFunctionCallLike(e) => {
                ComponentView::AlphanumericFunctionCallLike(e@)
            },
        }
    }
}

impl View for AlphanumericFunctionCallLike {
    type V = AlphanumericFunctionCallLikeView;

    open spec fn view(&self) -> AlphanumericFunctionCallLikeView
        decreases self,
    {
        match self {
            AlphanumericFunctionCallLike::FunctionCallLike(f) => {
                AlphanumericFunctionCallLikeView::FunctionCallLike(f@)
            },
            AlphanumericFunctionCallLike::AtomicExpr(a) => {
                AlphanumericFunctionCallLikeView::AtomicExpr(a@)
            },
        }
    }
}

impl View for FunctionCallLike {
    type V = FunctionCallLikeView;

    open spec fn view(&self) -> FunctionCallLikeView
        decreases self,
    {
        FunctionCallLikeView { head: self.head@, tail: view_atomic_seq(self.tail@) }
    }
}

impl View for AtomicExpr {
    type V = AtomicExprView;

    open spec fn view(&self) -> AtomicExprView
        decreases self,
    {
        match self {
            AtomicExpr::String(l) => AtomicExprView::String(l.value@, l.span),
            AtomicExpr::Number(l) => AtomicExprView::Number(l.value@, l.span),
            AtomicExpr::Parenthesized(p) => AtomicExprView::Parenthesized(p@),
            AtomicExpr::Name(l) => AtomicExprView::Name(l.value@, l.span),
        }
    }
}

impl View for ParenthesizedExpr {
    type V = ParenthesizedExprView;

    open spec fn view(&self) -> ParenthesizedExprView
        decreases self,
    {
        ParenthesizedExprView {
            open: self.open@,
            list: Box::new(self.list@),
            close: self.close@,
        }
    }
}

impl ComponentView {
    /// The span of one mixfix component.
    pub open spec fn spec_span(self) -> Span {
        match self {
            ComponentView::Operator(_, s) => s,
            ComponentView::AlphanumericFunctionCallLike(e) => e.spec_span(),
        }
    }
}

impl AlphanumericFunctionCallLikeView {
    /// The span of an alphanumeric call.
    pub open spec fn spec_span(self) -> Span {
        match self {
            AlphanumericFunctionCallLikeView::FunctionCallLike(f) => f.spec_span(),
            AlphanumericFunctionCallLikeView::AtomicExpr(a) => a.spec_span(),
        }
    }
}

impl FunctionCallLikeView {
    /// The span from the head to the last argument.
    pub open spec fn spec_span(self) -> Span {
        if self.tail.len() > 0 {
            self.head.spec_span().spec_join(self.tail.last().spec_span())
        } else {
            self.head.spec_span()
        }
    }
}

impl AtomicExprView {
    /// The span of an atomic expression; a parenthesised group spans from
    /// its opening to its closing bracket.
    pub open spec fn spec_span(self) -> Span {
        match self {
            AtomicExprView::String(_, s) => s,
            AtomicExprView::Number(_, s) => s,
            AtomicExprView::Parenthesized(p) => p.open.span.spec_join(p.close.span),
            AtomicExprView::Name(_, s) => s,
        }
    }
}

impl Operator {
    /// The span of the operator token.
    pub fn span(&self) -> (r: Span)
        ensures
            r == self.span,
    {
        self.span
    }
}

impl OperatorFunctionCallLikeComponent {
    /// The span of this component.
    pub fn span(&self) -> (r: Span)
        ensures
            r == self@.spec_span(),
    {
        match self {
            OperatorFunctionCallLikeComponent::Operator(operator) => operator.span(),
            OperatorFunctionCallLikeComponent::AlphanumericFunctionCallLike(function_call_like) => {
                function_call_like.span()
            },
        }
    }
}

impl AlphanumericFunctionCallLike {
    /// The span of this call.
    pub fn span(&self) -> (r: Span)
        ensures
            r == self@.spec_span(),
    {
        match self {
            AlphanumericFunctionCallLike::FunctionCallLike(function_call_like) => {
                function_call_like.span()
            },
            AlphanumericFunctionCallLike::AtomicExpr(expr) => expr.span(),
        }
    }
}

impl FunctionCallLike {
    /// The span from the head to the last argument.
    pub fn span(&self) -> (r: Span)
        ensures
            r == self@.spec_span(),
    {
        match self.tail.last() {
            Some(tail) => self.head.span().join(&tail.span()),
            None => self.head.span(),
        }
    }
}

impl AtomicExpr {
    /// The span of this atomic expression.
    pub fn span(&self) -> (r: Span)
        ensures
            r == self@.spec_span(),
    {
        match self {
            AtomicExpr::String(string) => string.span,
            AtomicExpr::Number(number) => number.span,
            AtomicExpr::Parenthesized(parenthesized) => {
                parenthesized.open.span.join(&parenthesized.close.span)
            },
            AtomicExpr::Name(name) => name.span,
        }
    }
}

} // verus!
