//! S-expressions, the lowering from the concrete syntax tree, and the
//! canonical stringifier.
//!
//! The spec functions `lower_*` define the lowering of every concrete
//! stratum, and `render` defines the canonical text of an S-expression. The
//! executable `to_sexp` and `stringify` functions are specified against
//! them.

use vstd::prelude::*;
use vstd::string::StringExecFns;

use crate::cst::AlphanumericFunctionCallLike;
use crate::cst::AlphanumericFunctionCallLikeView;
use crate::cst::AtomicExpr;
use crate::cst::AtomicExprView;
use crate::cst::ComponentView;
use crate::cst::FunctionCallLike;
use crate::cst::FunctionCallLikeView;
use crate::cst::LeftAssocExpr;
use crate::cst::LeftAssocExprView;
use crate::cst::lemma_view_atomic_seq;
use crate::cst::lemma_view_comp_seq;
use crate::cst::lemma_view_rae_seq;
use crate::cst::view_atomic_seq;
use crate::cst::view_comp_seq;
use crate::cst::view_rae_seq;
use crate::cst::List;
use crate::cst::ListView;
use crate::cst::LiteralName;
use crate::cst::LiteralNumber;
use crate::cst::LiteralString;
use crate::cst::OperatorFunctionCallLike;
use crate::cst::OperatorFunctionCallLikeComponent;
use crate::cst::RightAssocExpr;
use crate::cst::RightAssocExprView;
use crate::host::join_all;
use crate::host::join_seqs;
use crate::position::Span;
use crate::tokenizer::chars_vec;

verus! {

broadcast use vstd::std_specs::vec::axiom_vec_decreases_to_view, vstd::seq::axiom_seq_index_decreases, vstd::seq::axiom_seq_subrange_decreases;

/// A symbolic expression: the parser's output.
#[derive(Debug)]
pub enum Sexp {
    List(Vec<Sexp>),
    Number(LiteralNumber),
    String(LiteralString),
    Name(LiteralName),
}

/// The view of an S-expression: leaves carry their text and span.
pub enum SexpView {
    List(Seq<SexpView>),
    Number(Seq<char>, Span),
    String(Seq<char>, Span),
    Name(Seq<char>, Span),
}

/// The views of a sequence of S-expressions.
pub open spec fn view_sexp_seq(s: Seq<Sexp>) -> Seq<SexpView>
    decreases s,
{
    if s.len() == 0 {
        Seq::empty()
    } else {
        view_sexp_seq(s.drop_last()).push(s.last()@)
    }
}

impl View for Sexp {
    type V = SexpView;

    open spec fn view(&self) -> SexpView
        decreases self,
    {
        match self {
            Sexp::List(es) => SexpView::List(view_sexp_seq(es@)),
            Sexp::Number(l) => SexpView::Number(l.value@, l.span),
            Sexp::String(l) => SexpView::String(l.value@, l.span),
            Sexp::Name(l) => SexpView::Name(l.value@, l.span),
        }
    }
}

/// `view_sexp_seq` maps the view over the sequence, element by element.
pub proof fn lemma_view_sexp_seq(s: Seq<Sexp>)
    ensures
        view_sexp_seq(s).len() == s.len(),
        forall|i: int| 0 <= i < s.len() ==> view_sexp_seq(s)[i] == s[i]@,
    decreases s.len(),
{
    if s.len() > 0 {
        lemma_view_sexp_seq(s.drop_last());
        assert(view_sexp_seq(s) == view_sexp_seq(s.drop_last()).push(s.last()@));
        assert forall|i: int| 0 <= i < s.len() implies view_sexp_seq(s)[i] == s[i]@ by {
            if i < s.len() - 1 {
                assert(s.drop_last()[i] == s[i]);
                assert(view_sexp_seq(s.drop_last()).push(s.last()@)[i] == view_sexp_seq(
                    s.drop_last(),
                )[i]);
            }
        }
    }
}

/// The name contribution of one mixfix component: the operator's text
/// verbatim, or an underscore placeholder for an argument.
pub open spec fn component_name_part(c: ComponentView) -> Seq<char> {
    match c {
        ComponentView::Operator(t, _) => t,
        ComponentView::AlphanumericFunctionCallLike(_) => seq!['_'],
    }
}

/// The name parts of a sequence of mixfix components.
pub open spec fn component_name_parts(cs: Seq<ComponentView>) -> Seq<Seq<char>>
    decreases cs.len(),
{
    if cs.len() == 0 {
        Seq::empty()
    } else {
        component_name_parts(cs.drop_last()).push(component_name_part(cs.last()))
    }
}

/// The name contribution of one alphanumeric-call component: a bare name's
/// text verbatim, or an underscore placeholder.
pub open spec fn atomic_name_part(a: AtomicExprView) -> Seq<char> {
    match a {
        AtomicExprView::Name(t, _) => t,
        _ => seq!['_'],
    }
}

/// The name parts of a sequence of atomic expressions.
pub open spec fn atomic_name_parts(cs: Seq<AtomicExprView>) -> Seq<Seq<char>>
    decreases cs.len(),
{
    if cs.len() == 0 {
        Seq::empty()
    } else {
        atomic_name_parts(cs.drop_last()).push(atomic_name_part(cs.last()))
    }
}

/// The lowered arguments contributed by a sequence of mixfix components:
/// alphanumeric calls in order, operators dropped.
pub open spec fn mixfix_args(cs: Seq<ComponentView>) -> Seq<SexpView>
    decreases cs,
{
    if cs.len() == 0 {
        Seq::empty()
    } else {
        mixfix_args(cs.drop_last()) + (match cs.last() {
            ComponentView::AlphanumericFunctionCallLike(a) => seq![lower_alnum(a)],
            ComponentView::Operator(_, _) => Seq::empty(),
        })
    }
}

/// The lowered arguments contributed by a sequence of atomic expressions:
/// everything but bare names, in order.
pub open spec fn atomic_args(cs: Seq<AtomicExprView>) -> Seq<SexpView>
    decreases cs,
{
    if cs.len() == 0 {
        Seq::empty()
    } else {
        atomic_args(cs.drop_last()) + (match cs.last() {
            AtomicExprView::Name(_, _) => Seq::empty(),
            a => seq![lower_atomic(a)],
        })
    }
}

/// Lowers a mixfix call. A single operator becomes a bare name; a single
/// alphanumeric call lowers directly; otherwise the synthesised name is the
/// concatenation of the components' name parts, followed by the lowered
/// argument components in order.
pub open spec fn lower_op_call(o: crate::cst::OperatorFunctionCallLikeView) -> SexpView
    decreases o,
{
    if o.tail.len() == 0 {
        match o.head {
            ComponentView::Operator(t, sp) => SexpView::Name(t, sp),
            ComponentView::AlphanumericFunctionCallLike(a) => lower_alnum(a),
        }
    } else {
        let parts = seq![component_name_part(o.head)] + component_name_parts(o.tail);
        let name = join_seqs(parts, Seq::empty());
        let name_span = o.head.spec_span().spec_join(o.tail.last().spec_span());
        let head_args = match o.head {
            ComponentView::AlphanumericFunctionCallLike(a) => seq![lower_alnum(a)],
            ComponentView::Operator(_, _) => Seq::empty(),
        };
        SexpView::List(seq![SexpView::Name(name, name_span)] + head_args + mixfix_args(o.tail))
    }
}

/// Lowers an alphanumeric call with arguments: the synthesised name is the
/// concatenation of the components' name parts, followed by the lowered
/// non-name components in order.
pub open spec fn lower_fcall(f: FunctionCallLikeView) -> SexpView
    decreases f,
{
    let parts = seq![atomic_name_part(f.head)] + atomic_name_parts(f.tail);
    let name = join_seqs(parts, Seq::empty());
    let name_span = f.spec_span();
    let head_args = match f.head {
        AtomicExprView::Name(_, _) => Seq::empty(),
        a => seq![lower_atomic(a)],
    };
    SexpView::List(seq![SexpView::Name(name, name_span)] + head_args + atomic_args(f.tail))
}

/// Lowers an alphanumeric call.
pub open spec fn lower_alnum(a: AlphanumericFunctionCallLikeView) -> SexpView
    decreases a,
{
    match a {
        AlphanumericFunctionCallLikeView::FunctionCallLike(f) => lower_fcall(f),
        AlphanumericFunctionCallLikeView::AtomicExpr(x) => lower_atomic(x),
    }
}

/// Lowers an atomic expression; a parenthesised group lowers to the
/// lowering of its inner list.
pub open spec fn lower_atomic(a: AtomicExprView) -> SexpView
    decreases a,
{
    match a {
        AtomicExprView::String(t, sp) => SexpView::String(t, sp),
        AtomicExprView::Number(t, sp) => SexpView::Number(t, sp),
        AtomicExprView::Parenthesized(p) => lower_list(*p.list),
        AtomicExprView::Name(t, sp) => SexpView::Name(t, sp),
    }
}

/// Lowers a list to the S-expression list of its lowered elements.
pub open spec fn lower_list(l: ListView) -> SexpView
    decreases l,
{
    SexpView::List(lower_list_elems(l.0))
}

/// Lowers the elements of a list, in order.
pub open spec fn lower_list_elems(s: Seq<RightAssocExprView>) -> Seq<SexpView>
    decreases s,
{
    if s.len() == 0 {
        Seq::empty()
    } else {
        lower_list_elems(s.drop_last()).push(lower_rae(s.last()))
    }
}

/// The `:` combination: if the lowered left side is a non-empty list, the
/// right operand is appended to its arguments; an empty list passes
/// through unchanged; otherwise the pair `(L R)` is formed.
pub open spec fn splice_colon(l: SexpView, r: SexpView) -> SexpView {
    match l {
        SexpView::List(es) => if es.len() > 0 {
            SexpView::List(es.push(r))
        } else {
            SexpView::List(es)
        },
        _ => SexpView::List(seq![l, r]),
    }
}

/// Lowers a right-associative chain `L : R` by the `:` combination.
pub open spec fn lower_rae(r: RightAssocExprView) -> SexpView
    decreases r,
{
    match r {
        RightAssocExprView::RightAssocExpr { left, colon, right } => splice_colon(
            lower_lae(left),
            lower_rae(*right),
        ),
        RightAssocExprView::LeftAssocExpr(e) => lower_lae(e),
    }
}

/// The `.` combination: if the lowered right side is a non-empty list, the
/// left operand is inserted as its first argument; an empty list yields
/// the left operand alone; otherwise the pair `(R L)` is formed.
pub open spec fn splice_dot(l: SexpView, r: SexpView) -> SexpView {
    match r {
        SexpView::List(es) => if es.len() > 0 {
            SexpView::List(seq![es[0], l] + es.drop_first())
        } else {
            l
        },
        _ => SexpView::List(seq![r, l]),
    }
}

/// Lowers a left-associative chain `L . R` by the `.` combination.
pub open spec fn lower_lae(l: LeftAssocExprView) -> SexpView
    decreases l,
{
    match l {
        LeftAssocExprView::LeftAssocExpr { left, dot, right } => splice_dot(
            lower_lae(*left),
            lower_op_call(right),
        ),
        LeftAssocExprView::OperatorFunctionCallLike(o) => lower_op_call(o),
    }
}

/// The canonical escape of one code point inside a rendered string literal.
pub open spec fn escape_char(c: char) -> Seq<char> {
    if c == '\n' {
        seq!['\\', 'n']
    } else if c == '\t' {
        seq!['\\', 't']
    } else if c == '\\' {
        seq!['\\', '\\']
    } else if c == '"' {
        seq!['\\', '"']
    } else {
        seq![c]
    }
}

/// The canonical escaping of a string literal's text.
pub open spec fn escape_text(t: Seq<char>) -> Seq<char>
    decreases t.len(),
{
    if t.len() == 0 {
        Seq::empty()
    } else {
        escape_text(t.drop_last()) + escape_char(t.last())
    }
}

/// The canonical text of an S-expression: lists in parentheses with
/// space-separated children, strings quoted and escaped, numbers and names
/// as their text.
pub open spec fn render(e: SexpView) -> Seq<char>
    decreases e,
{
    match e {
        SexpView::List(es) => seq!['('] + join_seqs(render_parts(es), seq![' ']) + seq![')'],
        SexpView::Number(t, _) => t,
        SexpView::String(t, _) => seq!['"'] + escape_text(t) + seq!['"'],
        SexpView::Name(t, _) => t,
    }
}

/// The canonical texts of a sequence of S-expressions.
pub open spec fn render_parts(es: Seq<SexpView>) -> Seq<Seq<char>>
    decreases es,
{
    if es.len() == 0 {
        Seq::empty()
    } else {
        render_parts(es.drop_last()).push(render(es.last()))
    }
}

/// Viewing after a push is pushing the view.
proof fn lemma_view_sexp_seq_push(s: Seq<Sexp>, x: Sexp)
    ensures
        view_sexp_seq(s.push(x)) == view_sexp_seq(s).push(x@),
{
    assert(s.push(x).drop_last() =~= s);
    assert(s.push(x).last() == x);
}

/// One more element extends the rendered parts by one rendering.
proof fn lemma_render_parts_take(es: Seq<SexpView>, i: int)
    requires
        0 <= i < es.len(),
    ensures
        render_parts(es.take(i + 1)) == render_parts(es.take(i)).push(render(es[i])),
{
    assert(es.take(i + 1).drop_last() =~= es.take(i));
    assert(es.take(i + 1).last() == es[i]);
}

/// One more code point extends the escaped text by one escape.
proof fn lemma_escape_text_take(t: Seq<char>, i: int)
    requires
        0 <= i < t.len(),
    ensures
        escape_text(t.take(i + 1)) == escape_text(t.take(i)) + escape_char(t[i]),
{
    assert(t.take(i + 1).drop_last() =~= t.take(i));
    assert(t.take(i + 1).last() == t[i]);
}

/// One more component extends the name parts by one part.
proof fn lemma_component_name_parts_take(cs: Seq<ComponentView>, i: int)
    requires
        0 <= i < cs.len(),
    ensures
        component_name_parts(cs.take(i + 1)) == component_name_parts(cs.take(i)).push(
            component_name_part(cs[i]),
        ),
{
    assert(cs.take(i + 1).drop_last() =~= cs.take(i));
    assert(cs.take(i + 1).last() == cs[i]);
}

/// One more atomic extends the name parts by one part.
proof fn lemma_atomic_name_parts_take(cs: Seq<AtomicExprView>, i: int)
    requires
        0 <= i < cs.len(),
    ensures
        atomic_name_parts(cs.take(i + 1)) == atomic_name_parts(cs.take(i)).push(
            atomic_name_part(cs[i]),
        ),
{
    assert(cs.take(i + 1).drop_last() =~= cs.take(i));
    assert(cs.take(i + 1).last() == cs[i]);
}

/// One more component extends the lowered arguments by its contribution.
proof fn lemma_mixfix_args_take(cs: Seq<ComponentView>, i: int)
    requires
        0 <= i < cs.len(),
    ensures
        mixfix_args(cs.take(i + 1)) == mixfix_args(cs.take(i)) + (match cs[i] {
            ComponentView::AlphanumericFunctionCallLike(a) => seq![lower_alnum(a)],
            ComponentView::Operator(_, _) => Seq::empty(),
        }),
{
    assert(cs.take(i + 1).drop_last() =~= cs.take(i));
    assert(cs.take(i + 1).last() == cs[i]);
}

/// One more atomic extends the lowered arguments by its contribution.
proof fn lemma_atomic_args_take(cs: Seq<AtomicExprView>, i: int)
    requires
        0 <= i < cs.len(),
    ensures
        atomic_args(cs.take(i + 1)) == atomic_args(cs.take(i)) + (match cs[i] {
            AtomicExprView::Name(_, _) => Seq::empty(),
            a => seq![lower_atomic(a)],
        }),
{
    assert(cs.take(i + 1).drop_last() =~= cs.take(i));
    assert(cs.take(i + 1).last() == cs[i]);
}

/// One more element extends the lowered list elements by one lowering.
proof fn lemma_lower_list_elems_take(s: Seq<RightAssocExprView>, i: int)
    requires
        0 <= i < s.len(),
    ensures
        lower_list_elems(s.take(i + 1)) == lower_list_elems(s.take(i)).push(lower_rae(s[i])),
{
    assert(s.take(i + 1).drop_last() =~= s.take(i));
    assert(s.take(i + 1).last() == s[i]);
}

/// The name contribution of one mixfix component, as a string.
fn component_part_string(c: &OperatorFunctionCallLikeComponent) -> (r: String)
    ensures
        r@ == component_name_part(c@),
{
    match c {
        OperatorFunctionCallLikeComponent::Operator(o) => o.representation.clone(),
        OperatorFunctionCallLikeComponent::AlphanumericFunctionCallLike(_) => {
            let r = String::from_str("_");
            proof {
                reveal_strlit("_");
                assert(r@ =~= seq!['_']);
            }
            r
        },
    }
}

/// The name contribution of one atomic expression, as a string.
fn atomic_part_string(a: &AtomicExpr) -> (r: String)
    ensures
        r@ == atomic_name_part(a@),
{
    match a {
        AtomicExpr::Name(n) => n.value.clone(),
        _ => {
            let r = String::from_str("_");
            proof {
                reveal_strlit("_");
                assert(r@ =~= seq!['_']);
            }
            r
        },
    }
}

impl Sexp {
    /// Renders this S-expression as its canonical text.
    #[verifier::loop_isolation(false)]
    pub fn stringify(&self) -> (r: String)
        ensures
            r@ == render(self@),
        decreases *self,
    {
        match self {
            Sexp::List(exprs) => {
                let mut parts: Vec<String> = Vec::new();
                let mut i: usize = 0;
                proof {
                    lemma_view_sexp_seq(exprs@);
                }
                while i < exprs.len()
                    invariant
                        i <= exprs@.len(),
                        parts@.map_values(|p: String| p@) == render_parts(
                            view_sexp_seq(exprs@).take(i as int),
                        ),
                    decreases exprs@.len() - i,
                {
                    let ghost prev = parts@.map_values(|p: String| p@);
                    let part = exprs[i].stringify();
                    parts.push(part);
                    proof {
                        lemma_render_parts_take(view_sexp_seq(exprs@), i as int);
                        assert(parts@.map_values(|p: String| p@) =~= prev.push(parts@.last()@));
                    }
                    i = i + 1;
                }
                proof {
                    assert(view_sexp_seq(exprs@).take(exprs@.len() as int) =~= view_sexp_seq(
                        exprs@,
                    ));
                }
                let joined = join_all(&parts, " ");
                let mut out = String::from_str("(");
                out.append(joined.as_str());
                out.append(")");
                proof {
                    reveal_strlit("(");
                    reveal_strlit(")");
                    reveal_strlit(" ");
                    assert("("@ =~= seq!['(']);
                    assert(")"@ =~= seq![')']);
                    assert(" "@ =~= seq![' ']);
                    assert(out@ =~= seq!['('] + join_seqs(
                        render_parts(view_sexp_seq(exprs@)),
                        seq![' '],
                    ) + seq![')']);
                }
                out
            },
            Sexp::Number(number) => number.value.clone(),
            Sexp::String(string) => {
                let cs = chars_vec(string.value.as_str());
                let mut out = String::from_str("\"");
                proof {
                    reveal_strlit("\"");
                    assert(out@ =~= seq!['"']);
                    assert(out@ =~= seq!['"'] + escape_text(string.value@.take(0)));
                }
                let mut i: usize = 0;
                while i < cs.len()
                    invariant
                        i <= cs@.len(),
                        cs@ == string.value@,
                        out@ == seq!['"'] + escape_text(string.value@.take(i as int)),
                    decreases cs@.len() - i,
                {
                    let c = cs[i];
                    if c == '\n' {
                        out.push('\\');
                        out.push('n');
                    } else if c == '\t' {
                        out.push('\\');
                        out.push('t');
                    } else if c == '\\' {
                        out.push('\\');
                        out.push('\\');
                    } else if c == '"' {
                        out.push('\\');
                        out.push('"');
                    } else {
                        out.push(c);
                    }
                    proof {
                        lemma_escape_text_take(string.value@, i as int);
                        assert(out@ =~= seq!['"'] + escape_text(string.value@.take(i + 1)));
                    }
                    i = i + 1;
                }
                out.push('"');
                proof {
                    assert(string.value@.take(string.value@.len() as int) =~= string.value@);
                    assert(out@ =~= seq!['"'] + escape_text(string.value@) + seq!['"']);
                }
                out
            },
            Sexp::Name(name) => name.value.clone(),
        }
    }
}

impl List {
    /// Lowers this list to the S-expression list of its lowered elements.
    #[verifier::loop_isolation(false)]
    pub fn to_sexp(&self) -> (r: Sexp)
        ensures
            r@ == lower_list(self@),
        decreases *self,
    {
        let mut inner: Vec<Sexp> = Vec::new();
        let mut i: usize = 0;
        proof {
            lemma_view_rae_seq(self.0@);
        }
        while i < self.0.len()
            invariant
                i <= self.0@.len(),
                view_sexp_seq(inner@) == lower_list_elems(view_rae_seq(self.0@).take(i as int)),
            decreases self.0@.len() - i,
        {
            let ghost prev = inner@;
            let e = self.0[i].to_sexp();
            inner.push(e);
            proof {
                lemma_lower_list_elems_take(view_rae_seq(self.0@), i as int);
                lemma_view_sexp_seq_push(prev, inner@.last());
            }
            i = i + 1;
        }
        proof {
            assert(view_rae_seq(self.0@).take(self.0@.len() as int) =~= view_rae_seq(self.0@));
        }
        Sexp::List(inner)
    }
}

impl RightAssocExpr {
    /// Lowers a `:` chain by appending the right operand to the lowered
    /// left side's arguments.
    pub fn to_sexp(&self) -> (r: Sexp)
        ensures
            r@ == lower_rae(self@),
        decreases *self,
    {
        match self {
            RightAssocExpr::RightAssocExpr { left, colon, right } => {
                let l = left.to_sexp();
                let rsx = right.to_sexp();
                match l {
                    Sexp::List(mut exprs) => {
                        proof {
                            lemma_view_sexp_seq(exprs@);
                        }
                        if exprs.len() > 0 {
                            let ghost prev = exprs@;
                            exprs.push(rsx);
                            proof {
                                lemma_view_sexp_seq_push(prev, exprs@.last());
                            }
                            Sexp::List(exprs)
                        } else {
                            Sexp::List(exprs)
                        }
                    },
                    other => {
                        let mut v: Vec<Sexp> = Vec::new();
                        let ghost ov = other@;
                        v.push(other);
                        proof {
                            lemma_view_sexp_seq_push(Seq::empty(), v@.last());
                            assert(Seq::<Sexp>::empty().push(v@[0]) =~= v@);
                        }
                        let ghost v1 = v@;
                        v.push(rsx);
                        proof {
                            lemma_view_sexp_seq_push(v1, v@.last());
                            assert(view_sexp_seq(v@) =~= seq![ov, v@.last()@]);
                        }
                        Sexp::List(v)
                    },
                }
            },
            RightAssocExpr::LeftAssocExpr(expr) => expr.to_sexp(),
        }
    }
}

impl LeftAssocExpr {
    /// Lowers a `.` chain by inserting the left operand as the first
    /// argument of the lowered right side.
    #[verifier::rlimit(60)]
    pub fn to_sexp(&self) -> (r: Sexp)
        ensures
            r@ == lower_lae(self@),
        decreases *self,
    {
        match self {
            LeftAssocExpr::LeftAssocExpr { left, dot, right } => {
                let rsx = right.to_sexp();
                let lsx = left.to_sexp();
                match rsx {
                    Sexp::List(mut exprs) => {
                        if exprs.len() > 0 {
                            let ghost prev = exprs@;
                            let ghost lv = lsx@;
                            exprs.insert(1, lsx);
                            proof {
                                lemma_view_sexp_seq(prev);
                                lemma_view_sexp_seq(exprs@);
                                assert(view_sexp_seq(exprs@) =~= seq![
                                    view_sexp_seq(prev)[0],
                                    lv,
                                ] + view_sexp_seq(prev).drop_first());
                            }
                            Sexp::List(exprs)
                        } else {
                            lsx
                        }
                    },
                    other => {
                        let mut v: Vec<Sexp> = Vec::new();
                        let ghost ov = other@;
                        v.push(other);
                        let ghost v1 = v@;
                        v.push(lsx);
                        proof {
                            lemma_view_sexp_seq(v@);
                            assert(view_sexp_seq(v@) =~= seq![ov, v@.last()@]);
                        }
                        Sexp::List(v)
                    },
                }
            },
            LeftAssocExpr::OperatorFunctionCallLike(expr) => expr.to_sexp(),
        }
    }
}

impl OperatorFunctionCallLike {
    /// Lowers a mixfix call: a single component lowers directly, otherwise
    /// the synthesised name is followed by the lowered arguments in order.
    #[verifier::loop_isolation(false)]
    pub fn to_sexp(&self) -> (r: Sexp)
        ensures
            r@ == lower_op_call(self@),
        decreases *self,
    {
        proof {
            lemma_view_comp_seq(self.tail@);
        }
        if self.tail.len() == 0 {
            match &self.head {
                OperatorFunctionCallLikeComponent::Operator(operator) => Sexp::Name(
                    LiteralName { value: operator.representation.clone(), span: operator.span },
                ),
                OperatorFunctionCallLikeComponent::AlphanumericFunctionCallLike(
                    function_call_like,
                ) => function_call_like.to_sexp(),
            }
        } else {
            let ghost tv = view_comp_seq(self.tail@);
            let mut parts: Vec<String> = Vec::new();
            parts.push(component_part_string(&self.head));
            proof {
                assert(parts@.map_values(|p: String| p@) =~= seq![component_name_part(self.head@)]
                    + component_name_parts(tv.take(0)));
            }
            let mut i: usize = 0;
            while i < self.tail.len()
                invariant
                    i <= self.tail@.len(),
                    parts@.map_values(|p: String| p@) == seq![component_name_part(self.head@)]
                        + component_name_parts(tv.take(i as int)),
                decreases self.tail@.len() - i,
            {
                let ghost prev = parts@.map_values(|p: String| p@);
                parts.push(component_part_string(&self.tail[i]));
                proof {
                    lemma_component_name_parts_take(tv, i as int);
                    assert(parts@.map_values(|p: String| p@) =~= prev.push(parts@.last()@));
                    assert(prev.push(parts@.last()@) =~= seq![component_name_part(self.head@)]
                        + component_name_parts(tv.take(i + 1)));
                }
                i = i + 1;
            }
            proof {
                assert(tv.take(self.tail@.len() as int) =~= tv);
            }
            let name = join_all(&parts, "");
            proof {
                reveal_strlit("");
                assert(""@ =~= Seq::<char>::empty());
            }
            let name_span = match self.tail.last() {
                Some(last) => self.head.span().join(&last.span()),
                None => self.head.span(),
            };
            let mut arguments: Vec<Sexp> = Vec::new();
            let ghost name_view = SexpView::Name(
                join_seqs(
                    seq![component_name_part(self.head@)] + component_name_parts(tv),
                    Seq::empty(),
                ),
                self.head@.spec_span().spec_join(tv.last().spec_span()),
            );
            arguments.push(Sexp::Name(LiteralName { value: name, span: name_span }));
            let ghost head_args = match self.head@ {
                ComponentView::AlphanumericFunctionCallLike(a) => seq![lower_alnum(a)],
                ComponentView::Operator(_, _) => Seq::empty(),
            };
            match &self.head {
                OperatorFunctionCallLikeComponent::AlphanumericFunctionCallLike(f) => {
                    let ghost prev = arguments@;
                    arguments.push(f.to_sexp());
                    proof {
                        lemma_view_sexp_seq_push(prev, arguments@.last());
                    }
                },
                OperatorFunctionCallLikeComponent::Operator(_) => {},
            }
            proof {
                lemma_view_sexp_seq(arguments@);
                assert(view_sexp_seq(arguments@) =~= seq![name_view] + head_args + mixfix_args(
                    tv.take(0),
                ));
            }
            let mut j: usize = 0;
            while j < self.tail.len()
                invariant
                    j <= self.tail@.len(),
                    view_sexp_seq(arguments@) == seq![name_view] + head_args + mixfix_args(
                        tv.take(j as int),
                    ),
                decreases self.tail@.len() - j,
            {
                let ghost prev = arguments@;
                match &self.tail[j] {
                    OperatorFunctionCallLikeComponent::AlphanumericFunctionCallLike(f) => {
                        arguments.push(f.to_sexp());
                        proof {
                            lemma_view_sexp_seq_push(prev, arguments@.last());
                            lemma_mixfix_args_take(tv, j as int);
                            assert(view_sexp_seq(arguments@) =~= seq![name_view] + head_args
                                + mixfix_args(tv.take(j + 1)));
                        }
                    },
                    OperatorFunctionCallLikeComponent::Operator(_) => {
                        proof {
                            lemma_mixfix_args_take(tv, j as int);
                            assert(mixfix_args(tv.take(j + 1)) =~= mixfix_args(tv.take(j as int)));
                        }
                    },
                }
                j = j + 1;
            }
            proof {
                assert(tv.take(self.tail@.len() as int) =~= tv);
            }
            Sexp::List(arguments)
        }
    }
}

impl AlphanumericFunctionCallLike {
    /// Lowers an alphanumeric call.
    pub fn to_sexp(&self) -> (r: Sexp)
        ensures
            r@ == lower_alnum(self@),
        decreases *self,
    {
        match self {
            AlphanumericFunctionCallLike::FunctionCallLike(function_call_like) => {
                function_call_like.to_sexp()
            },
            AlphanumericFunctionCallLike::AtomicExpr(expr) => expr.to_sexp(),
        }
    }
}

impl FunctionCallLike {
    /// Lowers an alphanumeric call with arguments: the synthesised name is
    /// followed by the lowered non-name components in order.
    #[verifier::loop_isolation(false)]
    pub fn to_sexp(&self) -> (r: Sexp)
        ensures
            r@ == lower_fcall(self@),
        decreases *self,
    {
        proof {
            lemma_view_atomic_seq(self.tail@);
        }
        let ghost tv = view_atomic_seq(self.tail@);
        let mut parts: Vec<String> = Vec::new();
        parts.push(atomic_part_string(&self.head));
        proof {
            assert(parts@.map_values(|p: String| p@) =~= seq![atomic_name_part(self.head@)]
                + atomic_name_parts(tv.take(0)));
        }
        let mut i: usize = 0;
        while i < self.tail.len()
            invariant
                i <= self.tail@.len(),
                parts@.map_values(|p: String| p@) == seq![atomic_name_part(self.head@)]
                    + atomic_name_parts(tv.take(i as int)),
            decreases self.tail@.len() - i,
        {
            let ghost prev = parts@.map_values(|p: String| p@);
            parts.push(atomic_part_string(&self.tail[i]));
            proof {
                lemma_atomic_name_parts_take(tv, i as int);
                assert(parts@.map_values(|p: String| p@) =~= prev.push(parts@.last()@));
                assert(prev.push(parts@.last()@) =~= seq![atomic_name_part(self.head@)]
                    + atomic_name_parts(tv.take(i + 1)));
            }
            i = i + 1;
        }
        proof {
            assert(tv.take(self.tail@.len() as int) =~= tv);
        }
        let name = join_all(&parts, "");
        proof {
            reveal_strlit("");
            assert(""@ =~= Seq::<char>::empty());
        }
        let name_span = self.span();
        let mut arguments: Vec<Sexp> = Vec::new();
        let ghost name_view = SexpView::Name(
            join_seqs(seq![atomic_name_part(self.head@)] + atomic_name_parts(tv), Seq::empty()),
            self@.spec_span(),
        );
        arguments.push(Sexp::Name(LiteralName { value: name, span: name_span }));
        let ghost head_args = match self.head@ {
            AtomicExprView::Name(_, _) => Seq::<SexpView>::empty(),
            a => seq![lower_atomic(a)],
        };
        match &self.head {
            AtomicExpr::Name(_) => {},
            head => {
                let ghost prev = arguments@;
                arguments.push(head.to_sexp());
                proof {
                    lemma_view_sexp_seq_push(prev, arguments@.last());
                }
            },
        }
        proof {
            lemma_view_sexp_seq(arguments@);
            assert(view_sexp_seq(arguments@) =~= seq![name_view] + head_args + atomic_args(
                tv.take(0),
            ));
        }
        let mut j: usize = 0;
        while j < self.tail.len()
            invariant
                j <= self.tail@.len(),
                view_sexp_seq(arguments@) == seq![name_view] + head_args + atomic_args(
                    tv.take(j as int),
                ),
            decreases self.tail@.len() - j,
        {
            let ghost prev = arguments@;
            match &self.tail[j] {
                AtomicExpr::Name(_) => {
                    proof {
                        lemma_atomic_args_take(tv, j as int);
                        assert(atomic_args(tv.take(j + 1)) =~= atomic_args(tv.take(j as int)));
                    }
                },
                arg => {
                    arguments.push(arg.to_sexp());
                    proof {
                        lemma_view_sexp_seq_push(prev, arguments@.last());
                        lemma_atomic_args_take(tv, j as int);
                        assert(view_sexp_seq(arguments@) =~= seq![name_view] + head_args
                            + atomic_args(tv.take(j + 1)));
                    }
                },
            }
            j = j + 1;
        }
        proof {
            assert(tv.take(self.tail@.len() as int) =~= tv);
        }
        Sexp::List(arguments)
    }
}

impl AtomicExpr {
    /// Lowers an atomic expression; a parenthesised group lowers to its
    /// inner list's lowering.
    pub fn to_sexp(&self) -> (r: Sexp)
        ensures
            r@ == lower_atomic(self@),
        decreases *self,
    {
        match self {
            AtomicExpr::String(string) => Sexp::String(
                LiteralString { value: string.value.clone(), span: string.span },
            ),
            AtomicExpr::Number(number) => Sexp::Number(
                LiteralNumber { value: number.value.clone(), span: number.span },
            ),
            AtomicExpr::Parenthesized(expr) => expr.list.to_sexp(),
            AtomicExpr::Name(name) => Sexp::Name(
                LiteralName { value: name.value.clone(), span: name.span },
            ),
        }
    }
}

} // verus!
