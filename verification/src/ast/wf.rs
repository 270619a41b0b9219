//! The structural invariants every parsed AST satisfies (as documented on
//! the AST types): template literals have one more text part than
//! interpolations, assignment and update targets are identifiers or member
//! accesses, an element is a component exactly when its tag is uppercase or
//! dotted, a `...rest` parameter is a bare name, a `try` has a `catch` or a
//! `finally`, and a destructuring declaration never binds a bare name.

use vstd::prelude::*;
use crate::ast::expr::{ArrayItem, CallArg, Element, Expr, ObjectItem, Prop};
use crate::ast::program::{ClassComponent, Decl, ExportDecl, Method, ObjectProp, Param, Pattern, Program, Stmt};
use crate::text::is_upper;

verus! {

/// An identifier or a member access: the only assignable expressions.
pub open spec fn assignable(e: Expr) -> bool {
    e is Ident || e is Member
}

/// A tag names a component when it starts with an uppercase ASCII letter or
/// is dotted (`Ctx.Provider`); the empty fragment tag does not.
pub open spec fn component_tag(tag: Seq<char>) -> bool {
    tag.len() > 0 && (is_upper(tag[0]) || tag.contains('.'))
}

pub open spec fn wf_expr(e: Expr) -> bool
    decreases e,
{
    match e {
        Expr::Literal(_) => true,
        Expr::Ident { .. } => true,
        Expr::DynImport { .. } => true,
        Expr::Break => true,
        Expr::Continue => true,
        Expr::Member { base, .. } => wf_expr(*base),
        Expr::Binary { left, right, .. } => wf_expr(*left) && wf_expr(*right),
        Expr::Unary { expr, .. } => wf_expr(*expr),
        Expr::Call { callee, args } => wf_expr(*callee) && wf_call_args(args@),
        Expr::New { callee, args } => wf_expr(*callee) && wf_call_args(args@),
        Expr::Assign { target, value } => assignable(*target) && wf_expr(*target) && wf_expr(*value),
        Expr::Element(el) => wf_element(el),
        Expr::Ternary { cond, then, else_ } => wf_expr(*cond) && wf_expr(*then) && wf_expr(*else_),
        Expr::Array(items) => wf_array_items(items@),
        Expr::Object(items) => wf_object_items(items@),
        Expr::Template { parts, exprs } => parts@.len() == exprs@.len() + 1 && wf_exprs(exprs@),
        Expr::Update { target, .. } => assignable(*target) && wf_expr(*target),
        Expr::CompoundAssign { target, value, .. } => assignable(*target) && wf_expr(*target) && wf_expr(*value),
        Expr::Arrow { params, body, .. } => wf_params(params@) && wf_expr(*body),
        Expr::Function { params, body, .. } => wf_params(params@) && wf_stmts(body@),
        Expr::Return(v) => match v {
            Some(x) => wf_expr(*x),
            None => true,
        },
        Expr::Yield { value, .. } => match value {
            Some(x) => wf_expr(*x),
            None => true,
        },
        Expr::Await { value, .. } => wf_expr(*value),
        Expr::Block(es) => wf_exprs(es@),
        Expr::Throw(x) => wf_expr(*x),
        Expr::While { cond, body } => wf_expr(*cond) && wf_expr(*body),
        Expr::Try { block, catch, finally, .. } => {
            &&& wf_exprs(block@)
            &&& (catch is Some || finally is Some)
            &&& (match catch {
                Some(c) => wf_exprs(c@),
                None => true,
            })
            &&& (match finally {
                Some(f) => wf_exprs(f@),
                None => true,
            })
        },
    }
}

/// Every expression is well formed.
pub open spec fn wf_exprs(s: Seq<Expr>) -> bool
    decreases s,
{
    if s.len() == 0 { true } else { wf_expr(s.last()) && wf_exprs(s.drop_last()) }
}

pub open spec fn wf_call_arg(a: CallArg) -> bool
    decreases a,
{
    match a {
        CallArg::Expr(x) => wf_expr(x),
        CallArg::Spread(x) => wf_expr(x),
    }
}

/// Every argument is well formed.
pub open spec fn wf_call_args(s: Seq<CallArg>) -> bool
    decreases s,
{
    if s.len() == 0 { true } else { wf_call_arg(s.last()) && wf_call_args(s.drop_last()) }
}

pub open spec fn wf_array_item(a: ArrayItem) -> bool
    decreases a,
{
    match a {
        ArrayItem::Expr(x) => wf_expr(x),
        ArrayItem::Spread(x) => wf_expr(x),
    }
}

/// Every array item is well formed.
pub open spec fn wf_array_items(s: Seq<ArrayItem>) -> bool
    decreases s,
{
    if s.len() == 0 { true } else { wf_array_item(s.last()) && wf_array_items(s.drop_last()) }
}

pub open spec fn wf_object_item(a: ObjectItem) -> bool
    decreases a,
{
    match a {
        ObjectItem::Shorthand(_) => true,
        ObjectItem::Prop(_, x) => wf_expr(x),
        ObjectItem::Spread(x) => wf_expr(x),
    }
}

/// Every object item is well formed.
pub open spec fn wf_object_items(s: Seq<ObjectItem>) -> bool
    decreases s,
{
    if s.len() == 0 { true } else { wf_object_item(s.last()) && wf_object_items(s.drop_last()) }
}

pub open spec fn wf_element(el: Element) -> bool
    decreases el,
{
    &&& el.is_component == component_tag(el.tag@)
    &&& wf_props(el.props@)
    &&& wf_exprs(el.children@)
}

pub open spec fn wf_prop(p: Prop) -> bool
    decreases p,
{
    match p.value {
        Some(x) => wf_expr(x),
        None => true,
    }
}

/// Every attribute is well formed.
pub open spec fn wf_props(s: Seq<Prop>) -> bool
    decreases s,
{
    if s.len() == 0 { true } else { wf_prop(s.last()) && wf_props(s.drop_last()) }
}

pub open spec fn wf_object_prop(p: ObjectProp) -> bool
    decreases p,
{
    match p.alias {
        Some(a) => wf_pattern(a),
        None => true,
    }
}

pub open spec fn wf_pattern_item(p: Option<Pattern>) -> bool
    decreases p,
{
    match p {
        Some(a) => wf_pattern(a),
        None => true,
    }
}

pub open spec fn wf_pattern(p: Pattern) -> bool
    decreases p,
{
    match p {
        Pattern::Name { default, .. } => match default {
            Some(x) => wf_expr(x),
            None => true,
        },
        Pattern::Object { props, .. } => wf_object_props(props@),
        Pattern::Array { items, .. } => wf_pattern_items(items@),
    }
}

/// Every object-pattern property is well formed.
pub open spec fn wf_object_props(s: Seq<ObjectProp>) -> bool
    decreases s,
{
    if s.len() == 0 { true } else { wf_object_prop(s.last()) && wf_object_props(s.drop_last()) }
}

/// Every array-pattern item is well formed.
pub open spec fn wf_pattern_items(s: Seq<Option<Pattern>>) -> bool
    decreases s,
{
    if s.len() == 0 { true } else { wf_pattern_item(s.last()) && wf_pattern_items(s.drop_last()) }
}

pub open spec fn wf_param(p: Param) -> bool
    decreases p,
{
    &&& wf_pattern(p.pattern)
    &&& (match p.default {
        Some(x) => wf_expr(x),
        None => true,
    })
    &&& (p.rest ==> (p.pattern matches Pattern::Name { default: None, .. } && p.default is None))
}

/// Every parameter is well formed.
pub open spec fn wf_params(s: Seq<Param>) -> bool
    decreases s,
{
    if s.len() == 0 { true } else { wf_param(s.last()) && wf_params(s.drop_last()) }
}

/// Only the last parameter may be `...rest`.
pub open spec fn rest_last(ps: Seq<Param>) -> bool {
    forall|i: int| 0 <= i < ps.len() && #[trigger] ps[i].rest ==> i == ps.len() - 1
}

/// A bare name parameter (no default, no rest).
pub open spec fn plain(p: Param) -> bool {
    p.pattern matches Pattern::Name { default: None, .. } && p.default is None && !p.rest
}

pub open spec fn wf_stmt(s: Stmt) -> bool
    decreases s,
{
    match s {
        Stmt::Let { value, .. } => wf_expr(value),
        Stmt::Const { value, .. } => wf_expr(value),
        Stmt::Destructure { pattern, value, .. } => !(pattern is Name) && wf_pattern(pattern) && wf_expr(value),
        Stmt::Return(x) => wf_expr(x),
        Stmt::Expr(x) => wf_expr(x),
        Stmt::If { cond, then, else_ } => wf_expr(cond) && wf_stmts(then@) && match else_ {
            Some(b) => wf_stmts(b@),
            None => true,
        },
        Stmt::While { cond, body } => wf_expr(cond) && wf_stmts(body@),
        Stmt::For { init, cond, update, body } => {
            &&& (match init {
                Some(i) => wf_stmt(*i) && (*i is Let || *i is Const || *i is Destructure || *i is Expr),
                None => true,
            })
            &&& (match cond {
                Some(c) => wf_expr(c),
                None => true,
            })
            &&& (match update {
                Some(u) => wf_expr(u),
                None => true,
            })
            &&& wf_stmts(body@)
        },
        Stmt::Switch { disc, cases } => wf_expr(disc) && wf_cases(cases@),
        Stmt::Break => true,
        Stmt::Continue => true,
    }
}

pub open spec fn wf_case(c: (Option<Expr>, Vec<Stmt>)) -> bool
    decreases c,
{
    &&& match c.0 {
        Some(t) => wf_expr(t),
        None => true,
    }
    &&& wf_stmts(c.1@)
}

/// Every statement is well formed.
/// Every `switch` case is well formed.
pub open spec fn wf_cases(s: Seq<(Option<Expr>, Vec<Stmt>)>) -> bool
    decreases s,
{
    if s.len() == 0 { true } else { wf_case(s.last()) && wf_cases(s.drop_last()) }
}

pub open spec fn wf_stmts(s: Seq<Stmt>) -> bool
    decreases s,
{
    if s.len() == 0 { true } else { wf_stmt(s.last()) && wf_stmts(s.drop_last()) }
}

pub open spec fn wf_decl(d: Decl) -> bool {
    match d {
        Decl::Component(c) => rest_last(c.params@) && wf_params(c.params@) && wf_stmts(c.body@),
        Decl::Class(c) => wf_class(c),
        Decl::Import(_) => true,
        Decl::ExportDefault(_) => true,
        Decl::ExportNamed(_) => true,
        Decl::GeneratorFn(g) => rest_last(g.params@) && wf_params(g.params@) && wf_stmts(g.body@),
        Decl::FuncDecl(f) => rest_last(f.params@) && wf_params(f.params@) && wf_stmts(f.body@),
        Decl::ExportDecl(e) => match e {
            ExportDecl::Function(f) => rest_last(f.params@) && wf_params(f.params@) && wf_stmts(f.body@),
            ExportDecl::Const { value, .. } => wf_expr(value),
        },
        Decl::TopLevel { pattern, value, .. } => wf_pattern(pattern) && wf_expr(value),
    }
}

/// A class method: bare-name parameters and well-formed statements.
pub open spec fn wf_method(m: Method) -> bool {
    &&& forall|j: int| 0 <= j < m.params@.len() ==> plain(#[trigger] m.params@[j])
    &&& wf_stmts(m.body@)
}

pub open spec fn wf_class(c: ClassComponent) -> bool {
    &&& (match c.state {
        Some(x) => wf_expr(x),
        None => true,
    })
    &&& forall|i: int| 0 <= i < c.methods@.len() ==> #[trigger] wf_method(c.methods@[i])
}

/// The name of the last `export default` declaration, if any.
pub open spec fn default_root(decls: Seq<Decl>) -> Option<String>
    decreases decls.len(),
{
    if decls.len() == 0 {
        None
    } else {
        match decls.last() {
            Decl::ExportDefault(n) => Some(n),
            _ => default_root(decls.drop_last()),
        }
    }
}

/// Every declaration is well formed.
pub open spec fn wf_decls(decls: Seq<Decl>) -> bool {
    forall|i: int| 0 <= i < decls.len() ==> #[trigger] wf_decl(decls[i])
}

/// A complete program: well-formed declarations, and the root is the name
/// of the last `export default`, which must exist.
pub open spec fn wf_program(p: Program) -> bool {
    &&& wf_decls(p.decls@)
    &&& p.root == default_root(p.decls@)
    &&& p.root is Some
}

} // verus!
verus! {

pub proof fn lemma_push_exprs(s: Seq<Expr>, e: Expr)
    ensures wf_exprs(s.push(e)) == (wf_exprs(s) && wf_expr(e)),
{
    assert(s.push(e).drop_last() =~= s);
}

pub proof fn lemma_push_stmts(s: Seq<Stmt>, e: Stmt)
    ensures wf_stmts(s.push(e)) == (wf_stmts(s) && wf_stmt(e)),
{
    assert(s.push(e).drop_last() =~= s);
}

pub proof fn lemma_push_call_args(s: Seq<CallArg>, e: CallArg)
    ensures wf_call_args(s.push(e)) == (wf_call_args(s) && wf_call_arg(e)),
{
    assert(s.push(e).drop_last() =~= s);
}

pub proof fn lemma_push_array_items(s: Seq<ArrayItem>, e: ArrayItem)
    ensures wf_array_items(s.push(e)) == (wf_array_items(s) && wf_array_item(e)),
{
    assert(s.push(e).drop_last() =~= s);
}

pub proof fn lemma_push_object_items(s: Seq<ObjectItem>, e: ObjectItem)
    ensures wf_object_items(s.push(e)) == (wf_object_items(s) && wf_object_item(e)),
{
    assert(s.push(e).drop_last() =~= s);
}

pub proof fn lemma_push_props(s: Seq<Prop>, e: Prop)
    ensures wf_props(s.push(e)) == (wf_props(s) && wf_prop(e)),
{
    assert(s.push(e).drop_last() =~= s);
}

pub proof fn lemma_push_params(s: Seq<Param>, e: Param)
    ensures wf_params(s.push(e)) == (wf_params(s) && wf_param(e)),
{
    assert(s.push(e).drop_last() =~= s);
}

pub proof fn lemma_push_object_props(s: Seq<ObjectProp>, e: ObjectProp)
    ensures wf_object_props(s.push(e)) == (wf_object_props(s) && wf_object_prop(e)),
{
    assert(s.push(e).drop_last() =~= s);
}

pub proof fn lemma_push_pattern_items(s: Seq<Option<Pattern>>, e: Option<Pattern>)
    ensures wf_pattern_items(s.push(e)) == (wf_pattern_items(s) && wf_pattern_item(e)),
{
    assert(s.push(e).drop_last() =~= s);
}

pub proof fn lemma_push_cases(s: Seq<(Option<Expr>, Vec<Stmt>)>, e: (Option<Expr>, Vec<Stmt>))
    ensures wf_cases(s.push(e)) == (wf_cases(s) && wf_case(e)),
{
    assert(s.push(e).drop_last() =~= s);
}

/// The list form of statement well-formedness agrees with the pointwise one.
pub proof fn lemma_wf_stmts_forall(s: Seq<Stmt>)
    ensures wf_stmts(s) == (forall|i: int| 0 <= i < s.len() ==> #[trigger] wf_stmt(s[i])),
    decreases s.len(),
{
    if s.len() > 0 {
        lemma_wf_stmts_forall(s.drop_last());
        if wf_stmts(s) {
            assert forall|i: int| 0 <= i < s.len() implies #[trigger] wf_stmt(s[i]) by {
                if i < s.len() - 1 {
                    assert(s.drop_last()[i] == s[i]);
                }
            }
        }
        if forall|i: int| 0 <= i < s.len() ==> #[trigger] wf_stmt(s[i]) {
            assert forall|i: int| 0 <= i < s.drop_last().len() implies #[trigger] wf_stmt(s.drop_last()[i]) by {
                assert(s.drop_last()[i] == s[i]);
            }
            assert(wf_stmt(s[s.len() - 1]));
        }
    }
}

/// The list form of expression well-formedness agrees with the pointwise one.
pub proof fn lemma_wf_exprs_forall(s: Seq<Expr>)
    ensures wf_exprs(s) == (forall|i: int| 0 <= i < s.len() ==> #[trigger] wf_expr(s[i])),
    decreases s.len(),
{
    if s.len() > 0 {
        lemma_wf_exprs_forall(s.drop_last());
        if wf_exprs(s) {
            assert forall|i: int| 0 <= i < s.len() implies #[trigger] wf_expr(s[i]) by {
                if i < s.len() - 1 {
                    assert(s.drop_last()[i] == s[i]);
                }
            }
        }
        if forall|i: int| 0 <= i < s.len() ==> #[trigger] wf_expr(s[i]) {
            assert forall|i: int| 0 <= i < s.drop_last().len() implies #[trigger] wf_expr(s.drop_last()[i]) by {
                assert(s.drop_last()[i] == s[i]);
            }
            assert(wf_expr(s[s.len() - 1]));
        }
    }
}

/// The list form of `switch`-case well-formedness agrees with the pointwise one.
pub proof fn lemma_wf_cases_forall(s: Seq<(Option<Expr>, Vec<Stmt>)>)
    ensures wf_cases(s) == (forall|i: int| 0 <= i < s.len() ==> #[trigger] wf_case(s[i])),
    decreases s.len(),
{
    if s.len() > 0 {
        lemma_wf_cases_forall(s.drop_last());
        if wf_cases(s) {
            assert forall|i: int| 0 <= i < s.len() implies #[trigger] wf_case(s[i]) by {
                if i < s.len() - 1 {
                    assert(s.drop_last()[i] == s[i]);
                }
            }
        }
        if forall|i: int| 0 <= i < s.len() ==> #[trigger] wf_case(s[i]) {
            assert forall|i: int| 0 <= i < s.drop_last().len() implies #[trigger] wf_case(s.drop_last()[i]) by {
                assert(s.drop_last()[i] == s[i]);
            }
            assert(wf_case(s[s.len() - 1]));
        }
    }
}

} // verus!
