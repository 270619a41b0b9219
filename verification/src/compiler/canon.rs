//! Canonical dynamic imports: once the module graph is known, each
//! `import("raw")` of a module is rewritten to `import("id")`, the canonical
//! id its specifier resolves to, so that a dynamic import names a module the
//! way the graph does. Only the specifiers change; every other part of the
//! program stays as it was.

use vstd::prelude::*;
use crate::ast::expr::{ArrayItem, CallArg, Element, Expr, ObjectItem, Prop};
use crate::ast::program::{Decl, ExportDecl, Method, Program, Stmt};
use crate::ast::wf::{
    assignable, wf_array_item, wf_array_items, wf_call_arg, wf_call_args, wf_case, wf_cases, wf_decl,
    wf_decls, wf_element, wf_expr, wf_exprs, wf_method, wf_object_item, wf_object_items, wf_prop,
    wf_props, wf_stmt, wf_stmts,
};
use crate::compiler::assoc::{assoc_find, assoc_get};
use crate::compiler::dynamic::{
    dyn_args, dyn_cases, dyn_decl, dyn_decls, dyn_expr, dyn_exprs, dyn_import_specifiers, dyn_items,
    dyn_methods, dyn_objects, dyn_props, dyn_stmt, dyn_stmts, string_views,
};
use crate::compiler::graph::{closed_graph, distinct_strings, has_module, module_ids, modules_wf, GraphModule};
use crate::compiler::link::ModuleResolver;

verus! {

/// The canonical form of specifier `s` under `m`: the id `m` maps it to, or
/// `s` itself when `m` does not map it.
pub open spec fn canon_spec(s: String, m: Seq<(String, String)>) -> Seq<char> {
    match assoc_get(m, s@) {
        Some(c) => c@,
        None => s@,
    }
}

/// `b` is `a` with every dynamic-import specifier replaced by its canonical
/// form. The traversal reaches what module discovery reaches: arrow bodies
/// but not parameter defaults, `switch` case bodies but not their labels.
pub open spec fn canon_expr(a: Expr, b: Expr, m: Seq<(String, String)>) -> bool
    decreases a, 1nat,
{
    match a {
        Expr::DynImport { specifier } => b matches Expr::DynImport { specifier: s } && s@ == canon_spec(specifier, m),
        Expr::Member { base, prop } => b matches Expr::Member { base: x, prop: p }
            && p == prop && canon_expr(*base, *x, m),
        Expr::Binary { op, left, right } => b matches Expr::Binary { op: o, left: l, right: r }
            && o == op && canon_expr(*left, *l, m) && canon_expr(*right, *r, m),
        Expr::Unary { op, expr } => b matches Expr::Unary { op: o, expr: x }
            && o == op && canon_expr(*expr, *x, m),
        Expr::Call { callee, args } => b matches Expr::Call { callee: c, args: xs }
            && canon_expr(*callee, *c, m) && canon_args(args@, xs@, m),
        Expr::New { callee, args } => b matches Expr::New { callee: c, args: xs }
            && canon_expr(*callee, *c, m) && canon_args(args@, xs@, m),
        Expr::Assign { target, value } => b matches Expr::Assign { target: t, value: v }
            && canon_expr(*target, *t, m) && canon_expr(*value, *v, m),
        Expr::Element(el) => b matches Expr::Element(x) && canon_element(el, x, m),
        Expr::Ternary { cond, then, else_ } => b matches Expr::Ternary { cond: c, then: t, else_: e }
            && canon_expr(*cond, *c, m) && canon_expr(*then, *t, m) && canon_expr(*else_, *e, m),
        Expr::Array(items) => b matches Expr::Array(xs) && canon_items(items@, xs@, m),
        Expr::Object(items) => b matches Expr::Object(xs) && canon_objects(items@, xs@, m),
        Expr::Template { parts, exprs } => b matches Expr::Template { parts: p, exprs: xs }
            && p == parts && canon_exprs(exprs@, xs@, m),
        Expr::Update { op, target, prefix } => b matches Expr::Update { op: o, target: t, prefix: p }
            && o == op && p == prefix && canon_expr(*target, *t, m),
        Expr::CompoundAssign { op, target, value } => b matches Expr::CompoundAssign { op: o, target: t, value: v }
            && o == op && canon_expr(*target, *t, m) && canon_expr(*value, *v, m),
        Expr::Arrow { params, body, async_ } => b matches Expr::Arrow { params: p, body: x, async_: y }
            && p == params && y == async_ && canon_expr(*body, *x, m),
        Expr::Function { name, params, body } => b matches Expr::Function { name: n, params: p, body: x }
            && n == name && p == params && canon_stmts(body@, x@, m),
        Expr::Return(v) => b matches Expr::Return(w) && match v {
            Some(x) => w matches Some(y) && canon_expr(*x, *y, m),
            None => w is None,
        },
        Expr::Yield { value, from_return } => b matches Expr::Yield { value: w, from_return: f }
            && f == from_return && match value {
                Some(x) => w matches Some(y) && canon_expr(*x, *y, m),
                None => w is None,
            },
        Expr::Await { value, from_return } => b matches Expr::Await { value: w, from_return: f }
            && f == from_return && canon_expr(*value, *w, m),
        Expr::Block(es) => b matches Expr::Block(xs) && canon_exprs(es@, xs@, m),
        Expr::Throw(x) => b matches Expr::Throw(y) && canon_expr(*x, *y, m),
        Expr::While { cond, body } => b matches Expr::While { cond: c, body: x }
            && canon_expr(*cond, *c, m) && canon_expr(*body, *x, m),
        Expr::Try { block, catch_param, catch, finally } => b matches Expr::Try {
            block: bl, catch_param: cp, catch: c, finally: f }
            && cp == catch_param && canon_exprs(block@, bl@, m)
            && (match catch {
                Some(x) => c matches Some(y) && canon_exprs(x@, y@, m),
                None => c is None,
            })
            && (match finally {
                Some(x) => f matches Some(y) && canon_exprs(x@, y@, m),
                None => f is None,
            }),
        _ => b == a,
    }
}

/// Element-wise `canon_expr`.
pub open spec fn canon_exprs(a: Seq<Expr>, b: Seq<Expr>, m: Seq<(String, String)>) -> bool
    decreases a, 1nat,
{
    a.len() == b.len() && forall|i: int| 0 <= i < a.len() ==> canon_expr(#[trigger] a[i], b[i], m)
}

/// A call argument, plain or spread, with its expression canonical.
pub open spec fn canon_arg(a: CallArg, b: CallArg, m: Seq<(String, String)>) -> bool
    decreases a, 1nat,
{
    match a {
        CallArg::Expr(x) => b matches CallArg::Expr(y) && canon_expr(x, y, m),
        CallArg::Spread(x) => b matches CallArg::Spread(y) && canon_expr(x, y, m),
    }
}

/// Element-wise `canon_arg`.
pub open spec fn canon_args(a: Seq<CallArg>, b: Seq<CallArg>, m: Seq<(String, String)>) -> bool
    decreases a, 1nat,
{
    a.len() == b.len() && forall|i: int| 0 <= i < a.len() ==> canon_arg(#[trigger] a[i], b[i], m)
}

/// An array item, plain or spread, with its expression canonical.
pub open spec fn canon_item(a: ArrayItem, b: ArrayItem, m: Seq<(String, String)>) -> bool
    decreases a, 1nat,
{
    match a {
        ArrayItem::Expr(x) => b matches ArrayItem::Expr(y) && canon_expr(x, y, m),
        ArrayItem::Spread(x) => b matches ArrayItem::Spread(y) && canon_expr(x, y, m),
    }
}

/// Element-wise `canon_item`.
pub open spec fn canon_items(a: Seq<ArrayItem>, b: Seq<ArrayItem>, m: Seq<(String, String)>) -> bool
    decreases a, 1nat,
{
    a.len() == b.len() && forall|i: int| 0 <= i < a.len() ==> canon_item(#[trigger] a[i], b[i], m)
}

/// An object item: a shorthand unchanged, a property value or a spread
/// canonical.
pub open spec fn canon_object(a: ObjectItem, b: ObjectItem, m: Seq<(String, String)>) -> bool
    decreases a, 1nat,
{
    match a {
        ObjectItem::Shorthand(_) => b == a,
        ObjectItem::Prop(k, x) => b matches ObjectItem::Prop(k2, y) && k2 == k && canon_expr(x, y, m),
        ObjectItem::Spread(x) => b matches ObjectItem::Spread(y) && canon_expr(x, y, m),
    }
}

/// Element-wise `canon_object`.
pub open spec fn canon_objects(a: Seq<ObjectItem>, b: Seq<ObjectItem>, m: Seq<(String, String)>) -> bool
    decreases a, 1nat,
{
    a.len() == b.len() && forall|i: int| 0 <= i < a.len() ==> canon_object(#[trigger] a[i], b[i], m)
}

/// A JSX attribute: its name unchanged, its value canonical.
pub open spec fn canon_prop(a: Prop, b: Prop, m: Seq<(String, String)>) -> bool
    decreases a, 1nat,
{
    b.name == a.name && match a.value {
        Some(x) => b.value matches Some(y) && canon_expr(x, y, m),
        None => b.value is None,
    }
}

/// Element-wise `canon_prop`.
pub open spec fn canon_props(a: Seq<Prop>, b: Seq<Prop>, m: Seq<(String, String)>) -> bool
    decreases a, 1nat,
{
    a.len() == b.len() && forall|i: int| 0 <= i < a.len() ==> canon_prop(#[trigger] a[i], b[i], m)
}

/// A JSX element: tag unchanged, attribute values and children canonical.
pub open spec fn canon_element(a: Element, b: Element, m: Seq<(String, String)>) -> bool
    decreases a, 1nat,
{
    &&& b.tag == a.tag
    &&& b.is_component == a.is_component
    &&& canon_props(a.props@, b.props@, m)
    &&& canon_exprs(a.children@, b.children@, m)
}

/// `b` is statement `a` with its dynamic imports canonical.
pub open spec fn canon_stmt(a: Stmt, b: Stmt, m: Seq<(String, String)>) -> bool
    decreases a, 1nat,
{
    match a {
        Stmt::Let { name, value } => b matches Stmt::Let { name: n, value: v } && n == name && canon_expr(value, v, m),
        Stmt::Const { name, value } => b matches Stmt::Const { name: n, value: v } && n == name && canon_expr(value, v, m),
        Stmt::Destructure { kind, pattern, value } => b matches Stmt::Destructure { kind: k, pattern: p, value: v }
            && k == kind && p == pattern && canon_expr(value, v, m),
        Stmt::Return(x) => b matches Stmt::Return(y) && canon_expr(x, y, m),
        Stmt::Expr(x) => b matches Stmt::Expr(y) && canon_expr(x, y, m),
        Stmt::If { cond, then, else_ } => b matches Stmt::If { cond: c, then: t, else_: e }
            && canon_expr(cond, c, m) && canon_stmts(then@, t@, m) && match else_ {
                Some(x) => e matches Some(y) && canon_stmts(x@, y@, m),
                None => e is None,
            },
        Stmt::While { cond, body } => b matches Stmt::While { cond: c, body: x }
            && canon_expr(cond, c, m) && canon_stmts(body@, x@, m),
        Stmt::For { init, cond, update, body } => b matches Stmt::For { init: i, cond: c, update: u, body: x }
            && (match init {
                Some(s) => i matches Some(t) && canon_stmt(*s, *t, m),
                None => i is None,
            })
            && (match cond {
                Some(y) => c matches Some(z) && canon_expr(y, z, m),
                None => c is None,
            })
            && (match update {
                Some(y) => u matches Some(z) && canon_expr(y, z, m),
                None => u is None,
            })
            && canon_stmts(body@, x@, m),
        Stmt::Switch { disc, cases } => b matches Stmt::Switch { disc: d, cases: cs }
            && canon_expr(disc, d, m) && canon_cases(cases@, cs@, m),
        _ => b == a,
    }
}

/// Element-wise `canon_stmt`.
pub open spec fn canon_stmts(a: Seq<Stmt>, b: Seq<Stmt>, m: Seq<(String, String)>) -> bool
    decreases a, 1nat,
{
    a.len() == b.len() && forall|i: int| 0 <= i < a.len() ==> canon_stmt(#[trigger] a[i], b[i], m)
}

/// `switch` cases: the labels unchanged, the bodies canonical.
pub open spec fn canon_case(a: (Option<Expr>, Vec<Stmt>), b: (Option<Expr>, Vec<Stmt>), m: Seq<(String, String)>) -> bool
    decreases a, 1nat,
{
    b.0 == a.0 && canon_stmts(a.1@, b.1@, m)
}

/// Element-wise `canon_case`.
pub open spec fn canon_cases(a: Seq<(Option<Expr>, Vec<Stmt>)>, b: Seq<(Option<Expr>, Vec<Stmt>)>,
    m: Seq<(String, String)>) -> bool
    decreases a, 1nat,
{
    a.len() == b.len() && forall|i: int| 0 <= i < a.len() ==> canon_case(#[trigger] a[i], b[i], m)
}

fn canon_string(s: &mut String, m: &Vec<(String, String)>)
    ensures final(s)@ == canon_spec(*old(s), m@),
{
    match assoc_find(m, s.as_str()) {
        Some(j) => {
            *s = m[j].1.clone();
        },
        None => {},
    }
}

#[verifier::spinoff_prover]
#[verifier::rlimit(100)]
fn canon_expr_mut(e: &mut Expr, m: &Vec<(String, String)>)
    ensures canon_expr(*old(e), *final(e), m@),
    decreases *old(e), 1nat,
{
    match e {
        Expr::DynImport { specifier } => canon_string(specifier, m),
        Expr::Member { base, .. } => canon_expr_mut(&mut **base, m),
        Expr::Binary { left, right, .. } => {
            canon_expr_mut(&mut **left, m);
            canon_expr_mut(&mut **right, m);
        },
        Expr::Unary { expr, .. } => canon_expr_mut(&mut **expr, m),
        Expr::Call { callee, args } => {
            canon_expr_mut(&mut **callee, m);
            canon_args_mut(args, m);
        },
        Expr::New { callee, args } => {
            canon_expr_mut(&mut **callee, m);
            canon_args_mut(args, m);
        },
        Expr::Assign { target, value } => {
            canon_expr_mut(&mut **target, m);
            canon_expr_mut(&mut **value, m);
        },
        Expr::Element(el) => canon_element_mut(el, m),
        Expr::Ternary { cond, then, else_ } => {
            canon_expr_mut(&mut **cond, m);
            canon_expr_mut(&mut **then, m);
            canon_expr_mut(&mut **else_, m);
        },
        Expr::Array(items) => canon_items_mut(items, m),
        Expr::Object(items) => canon_objects_mut(items, m),
        Expr::Template { exprs, .. } => canon_exprs_mut(exprs, m),
        Expr::Update { target, .. } => canon_expr_mut(&mut **target, m),
        Expr::CompoundAssign { target, value, .. } => {
            canon_expr_mut(&mut **target, m);
            canon_expr_mut(&mut **value, m);
        },
        Expr::Arrow { body, .. } => canon_expr_mut(&mut **body, m),
        Expr::Function { body, .. } => canon_stmts_mut(body, m),
        Expr::Return(v) => match v {
            Some(x) => canon_expr_mut(&mut **x, m),
            None => {},
        },
        Expr::Yield { value, .. } => match value {
            Some(x) => canon_expr_mut(&mut **x, m),
            None => {},
        },
        Expr::Await { value, .. } => canon_expr_mut(&mut **value, m),
        Expr::Block(es) => canon_exprs_mut(es, m),
        Expr::Throw(x) => canon_expr_mut(&mut **x, m),
        Expr::While { cond, body } => {
            canon_expr_mut(&mut **cond, m);
            canon_expr_mut(&mut **body, m);
        },
        Expr::Try { block, catch, finally, .. } => {
            canon_exprs_mut(block, m);
            match catch {
                Some(c) => canon_exprs_mut(c, m),
                None => {},
            }
            match finally {
                Some(f) => canon_exprs_mut(f, m),
                None => {},
            }
        },
        _ => {},
    }
}

fn canon_exprs_mut(es: &mut Vec<Expr>, m: &Vec<(String, String)>)
    ensures canon_exprs(old(es)@, final(es)@, m@),
    decreases old(es)@, 2nat,
{
    let ghost start = es@;
    let n = es.len();
    for i in 0..n
        invariant
            n == es@.len() == start.len(),
            start == old(es)@,
            forall|j: int| 0 <= j < i ==> canon_expr(#[trigger] start[j], es@[j], m@),
            forall|j: int| i <= j < n ==> #[trigger] es@[j] == start[j],
    {
        assert(es@[i as int] == start[i as int]);
        assert(decreases_to!(old(es)@ => old(es)@[i as int]));
        canon_expr_mut(&mut es[i], m);
    }
}

fn canon_arg_mut(a: &mut CallArg, m: &Vec<(String, String)>)
    ensures canon_arg(*old(a), *final(a), m@),
    decreases *old(a), 1nat,
{
    match a {
        CallArg::Expr(x) => canon_expr_mut(x, m),
        CallArg::Spread(x) => canon_expr_mut(x, m),
    }
}

fn canon_args_mut(xs: &mut Vec<CallArg>, m: &Vec<(String, String)>)
    ensures canon_args(old(xs)@, final(xs)@, m@),
    decreases old(xs)@, 2nat,
{
    let ghost start = xs@;
    let n = xs.len();
    for i in 0..n
        invariant
            n == xs@.len() == start.len(),
            start == old(xs)@,
            forall|j: int| 0 <= j < i ==> canon_arg(#[trigger] start[j], xs@[j], m@),
            forall|j: int| i <= j < n ==> #[trigger] xs@[j] == start[j],
    {
        assert(xs@[i as int] == start[i as int]);
        assert(decreases_to!(old(xs)@ => old(xs)@[i as int]));
        canon_arg_mut(&mut xs[i], m);
    }
}

fn canon_item_mut(a: &mut ArrayItem, m: &Vec<(String, String)>)
    ensures canon_item(*old(a), *final(a), m@),
    decreases *old(a), 1nat,
{
    match a {
        ArrayItem::Expr(x) => canon_expr_mut(x, m),
        ArrayItem::Spread(x) => canon_expr_mut(x, m),
    }
}

fn canon_items_mut(xs: &mut Vec<ArrayItem>, m: &Vec<(String, String)>)
    ensures canon_items(old(xs)@, final(xs)@, m@),
    decreases old(xs)@, 2nat,
{
    let ghost start = xs@;
    let n = xs.len();
    for i in 0..n
        invariant
            n == xs@.len() == start.len(),
            start == old(xs)@,
            forall|j: int| 0 <= j < i ==> canon_item(#[trigger] start[j], xs@[j], m@),
            forall|j: int| i <= j < n ==> #[trigger] xs@[j] == start[j],
    {
        assert(xs@[i as int] == start[i as int]);
        assert(decreases_to!(old(xs)@ => old(xs)@[i as int]));
        canon_item_mut(&mut xs[i], m);
    }
}

fn canon_object_mut(a: &mut ObjectItem, m: &Vec<(String, String)>)
    ensures canon_object(*old(a), *final(a), m@),
    decreases *old(a), 1nat,
{
    match a {
        ObjectItem::Shorthand(_) => {},
        ObjectItem::Prop(_, x) => canon_expr_mut(x, m),
        ObjectItem::Spread(x) => canon_expr_mut(x, m),
    }
}

fn canon_objects_mut(xs: &mut Vec<ObjectItem>, m: &Vec<(String, String)>)
    ensures canon_objects(old(xs)@, final(xs)@, m@),
    decreases old(xs)@, 2nat,
{
    let ghost start = xs@;
    let n = xs.len();
    for i in 0..n
        invariant
            n == xs@.len() == start.len(),
            start == old(xs)@,
            forall|j: int| 0 <= j < i ==> canon_object(#[trigger] start[j], xs@[j], m@),
            forall|j: int| i <= j < n ==> #[trigger] xs@[j] == start[j],
    {
        assert(xs@[i as int] == start[i as int]);
        assert(decreases_to!(old(xs)@ => old(xs)@[i as int]));
        canon_object_mut(&mut xs[i], m);
    }
}

fn canon_prop_mut(p: &mut Prop, m: &Vec<(String, String)>)
    ensures canon_prop(*old(p), *final(p), m@),
    decreases *old(p), 1nat,
{
    match &mut p.value {
        Some(x) => canon_expr_mut(x, m),
        None => {},
    }
}

fn canon_props_mut(xs: &mut Vec<Prop>, m: &Vec<(String, String)>)
    ensures canon_props(old(xs)@, final(xs)@, m@),
    decreases old(xs)@, 2nat,
{
    let ghost start = xs@;
    let n = xs.len();
    for i in 0..n
        invariant
            n == xs@.len() == start.len(),
            start == old(xs)@,
            forall|j: int| 0 <= j < i ==> canon_prop(#[trigger] start[j], xs@[j], m@),
            forall|j: int| i <= j < n ==> #[trigger] xs@[j] == start[j],
    {
        assert(xs@[i as int] == start[i as int]);
        assert(decreases_to!(old(xs)@ => old(xs)@[i as int]));
        canon_prop_mut(&mut xs[i], m);
    }
}

fn canon_element_mut(el: &mut Element, m: &Vec<(String, String)>)
    ensures canon_element(*old(el), *final(el), m@),
    decreases *old(el), 1nat,
{
    canon_props_mut(&mut el.props, m);
    canon_exprs_mut(&mut el.children, m);
}

#[verifier::spinoff_prover]
#[verifier::rlimit(100)]
fn canon_stmt_mut(s: &mut Stmt, m: &Vec<(String, String)>)
    ensures canon_stmt(*old(s), *final(s), m@),
    decreases *old(s), 1nat,
{
    match s {
        Stmt::Let { value, .. } => canon_expr_mut(value, m),
        Stmt::Const { value, .. } => canon_expr_mut(value, m),
        Stmt::Destructure { value, .. } => canon_expr_mut(value, m),
        Stmt::Return(x) => canon_expr_mut(x, m),
        Stmt::Expr(x) => canon_expr_mut(x, m),
        Stmt::If { cond, then, else_ } => {
            canon_expr_mut(cond, m);
            canon_stmts_mut(then, m);
            match else_ {
                Some(b) => canon_stmts_mut(b, m),
                None => {},
            }
        },
        Stmt::While { cond, body } => {
            canon_expr_mut(cond, m);
            canon_stmts_mut(body, m);
        },
        Stmt::For { init, cond, update, body } => {
            match init {
                Some(i) => canon_stmt_mut(&mut **i, m),
                None => {},
            }
            match cond {
                Some(c) => canon_expr_mut(c, m),
                None => {},
            }
            match update {
                Some(u) => canon_expr_mut(u, m),
                None => {},
            }
            canon_stmts_mut(body, m);
        },
        Stmt::Switch { disc, cases } => {
            canon_expr_mut(disc, m);
            canon_cases_mut(cases, m);
        },
        _ => {},
    }
}

fn canon_stmts_mut(xs: &mut Vec<Stmt>, m: &Vec<(String, String)>)
    ensures canon_stmts(old(xs)@, final(xs)@, m@),
    decreases old(xs)@, 2nat,
{
    let ghost start = xs@;
    let n = xs.len();
    for i in 0..n
        invariant
            n == xs@.len() == start.len(),
            start == old(xs)@,
            forall|j: int| 0 <= j < i ==> canon_stmt(#[trigger] start[j], xs@[j], m@),
            forall|j: int| i <= j < n ==> #[trigger] xs@[j] == start[j],
    {
        assert(xs@[i as int] == start[i as int]);
        assert(decreases_to!(old(xs)@ => old(xs)@[i as int]));
        canon_stmt_mut(&mut xs[i], m);
    }
}

fn canon_case_mut(c: &mut (Option<Expr>, Vec<Stmt>), m: &Vec<(String, String)>)
    ensures canon_case(*old(c), *final(c), m@),
    decreases *old(c), 1nat,
{
    canon_stmts_mut(&mut c.1, m);
}

fn canon_cases_mut(xs: &mut Vec<(Option<Expr>, Vec<Stmt>)>, m: &Vec<(String, String)>)
    ensures canon_cases(old(xs)@, final(xs)@, m@),
    decreases old(xs)@, 2nat,
{
    let ghost start = xs@;
    let n = xs.len();
    for i in 0..n
        invariant
            n == xs@.len() == start.len(),
            start == old(xs)@,
            forall|j: int| 0 <= j < i ==> canon_case(#[trigger] start[j], xs@[j], m@),
            forall|j: int| i <= j < n ==> #[trigger] xs@[j] == start[j],
    {
        assert(xs@[i as int] == start[i as int]);
        assert(decreases_to!(old(xs)@ => old(xs)@[i as int]));
        canon_case_mut(&mut xs[i], m);
    }
}

/// Class methods: names and parameters unchanged, bodies canonical.
pub open spec fn canon_methods(a: Seq<Method>, b: Seq<Method>, m: Seq<(String, String)>) -> bool {
    a.len() == b.len() && forall|i: int| 0 <= i < a.len() ==> {
        &&& b[i].name == (#[trigger] a[i]).name
        &&& b[i].params == a[i].params
        &&& canon_stmts(a[i].body@, b[i].body@, m)
    }
}

/// `b` is declaration `a` with its dynamic imports canonical.
pub open spec fn canon_decl(a: Decl, b: Decl, m: Seq<(String, String)>) -> bool {
    match a {
        Decl::Component(c) => b matches Decl::Component(d)
            && d.name == c.name && d.params == c.params && canon_stmts(c.body@, d.body@, m),
        Decl::Class(c) => b matches Decl::Class(d)
            && d.name == c.name && d.extends == c.extends
            && (match c.state {
                Some(x) => d.state matches Some(y) && canon_expr(x, y, m),
                None => d.state is None,
            })
            && canon_methods(c.methods@, d.methods@, m),
        Decl::GeneratorFn(g) => b matches Decl::GeneratorFn(h)
            && h.name == g.name && h.params == g.params && canon_stmts(g.body@, h.body@, m),
        Decl::FuncDecl(f) => b matches Decl::FuncDecl(g)
            && g.name == f.name && g.params == f.params && canon_stmts(f.body@, g.body@, m),
        Decl::TopLevel { kind, pattern, value } => b matches Decl::TopLevel { kind: k, pattern: p, value: v }
            && k == kind && p == pattern && canon_expr(value, v, m),
        Decl::ExportDecl(ExportDecl::Function(f)) => b matches Decl::ExportDecl(ExportDecl::Function(g))
            && g.name == f.name && g.params == f.params && canon_stmts(f.body@, g.body@, m),
        Decl::ExportDecl(ExportDecl::Const { name, value }) => b matches Decl::ExportDecl(ExportDecl::Const {
            name: n, value: v }) && n == name && canon_expr(value, v, m),
        _ => b == a,
    }
}

/// `b` is program `a` with every dynamic-import specifier canonical under
/// `m`, and nothing else changed.
pub open spec fn canon_program(a: Program, b: Program, m: Seq<(String, String)>) -> bool {
    &&& b.root == a.root
    &&& a.decls@.len() == b.decls@.len()
    &&& forall|i: int| 0 <= i < a.decls@.len() ==> canon_decl(#[trigger] a.decls@[i], b.decls@[i], m)
}

fn canon_methods_mut(xs: &mut Vec<Method>, m: &Vec<(String, String)>)
    ensures canon_methods(old(xs)@, final(xs)@, m@),
{
    let ghost start = xs@;
    let n = xs.len();
    for i in 0..n
        invariant
            n == xs@.len() == start.len(),
            forall|j: int| 0 <= j < i ==> {
                &&& xs@[j].name == (#[trigger] start[j]).name
                &&& xs@[j].params == start[j].params
                &&& canon_stmts(start[j].body@, xs@[j].body@, m@)
            },
            forall|j: int| i <= j < n ==> #[trigger] xs@[j] == start[j],
    {
        canon_stmts_mut(&mut xs[i].body, m);
    }
}

fn canon_decl_mut(d: &mut Decl, m: &Vec<(String, String)>)
    ensures canon_decl(*old(d), *final(d), m@),
{
    match d {
        Decl::Component(c) => canon_stmts_mut(&mut c.body, m),
        Decl::Class(c) => {
            match &mut c.state {
                Some(x) => canon_expr_mut(x, m),
                None => {},
            }
            canon_methods_mut(&mut c.methods, m);
        },
        Decl::GeneratorFn(g) => canon_stmts_mut(&mut g.body, m),
        Decl::FuncDecl(f) => canon_stmts_mut(&mut f.body, m),
        Decl::TopLevel { value, .. } => canon_expr_mut(value, m),
        Decl::ExportDecl(ExportDecl::Function(f)) => canon_stmts_mut(&mut f.body, m),
        Decl::ExportDecl(ExportDecl::Const { value, .. }) => canon_expr_mut(value, m),
        _ => {},
    }
}

/// Rewrite every dynamic import `import("s")` of `program` to
/// `import("c")`, where `c` is what `canon` maps `s` to (its first entry
/// for `s`); a specifier `canon` does not map stays as it is. Nothing else
/// changes.
pub fn canonicalize_dyn_imports(program: &mut Program, canon: &Vec<(String, String)>)
    ensures
        canon_program(*old(program), *final(program), canon@),
        dyn_decls(final(program).decls@) == canon_all(dyn_decls(old(program).decls@), canon@),
{
    let ghost start = program.decls@;
    let n = program.decls.len();
    for i in 0..n
        invariant
            n == program.decls@.len() == start.len(),
            program.root == old(program).root,
            start == old(program).decls@,
            forall|j: int| 0 <= j < i ==> canon_decl(#[trigger] start[j], program.decls@[j], canon@),
            forall|j: int| i <= j < n ==> #[trigger] program.decls@[j] == start[j],
    {
        canon_decl_mut(&mut program.decls[i], canon);
    }
    proof {
        lemma_canon_specifiers(*old(program), *program, canon@);
    }
}

/// Canonical targets of assignments stay assignable.
proof fn lemma_assignable(a: Expr, b: Expr, m: Seq<(String, String)>)
    requires canon_expr(a, b, m), assignable(a),
    ensures assignable(b),
{
}

/// Canonical statements keep their kind.
proof fn lemma_stmt_kind(a: Stmt, b: Stmt, m: Seq<(String, String)>)
    requires canon_stmt(a, b, m),
    ensures
        a is Let <==> b is Let,
        a is Const <==> b is Const,
        a is Destructure <==> b is Destructure,
        a is Expr <==> b is Expr,
{
}

proof fn lemma_expr_wf(a: Expr, b: Expr, m: Seq<(String, String)>)
    requires canon_expr(a, b, m), wf_expr(a),
    ensures wf_expr(b),
    decreases a, 1nat,
{
    match a {
        Expr::Member { base, .. } => match b {
            Expr::Member { base: x, .. } => lemma_expr_wf(*base, *x, m),
            _ => {},
        },
        Expr::Binary { left, right, .. } => match b {
            Expr::Binary { left: l, right: r, .. } => {
                lemma_expr_wf(*left, *l, m);
                lemma_expr_wf(*right, *r, m);
            },
            _ => {},
        },
        Expr::Unary { expr, .. } => match b {
            Expr::Unary { expr: x, .. } => lemma_expr_wf(*expr, *x, m),
            _ => {},
        },
        Expr::Call { callee, args } => match b {
            Expr::Call { callee: c, args: xs } => {
                lemma_expr_wf(*callee, *c, m);
                lemma_args_wf(args@, xs@, m);
            },
            _ => {},
        },
        Expr::New { callee, args } => match b {
            Expr::New { callee: c, args: xs } => {
                lemma_expr_wf(*callee, *c, m);
                lemma_args_wf(args@, xs@, m);
            },
            _ => {},
        },
        Expr::Assign { target, value } => match b {
            Expr::Assign { target: t, value: v } => {
                lemma_assignable(*target, *t, m);
                lemma_expr_wf(*target, *t, m);
                lemma_expr_wf(*value, *v, m);
            },
            _ => {},
        },
        Expr::Element(el) => match b {
            Expr::Element(x) => lemma_element_wf(el, x, m),
            _ => {},
        },
        Expr::Ternary { cond, then, else_ } => match b {
            Expr::Ternary { cond: c, then: t, else_: e } => {
                lemma_expr_wf(*cond, *c, m);
                lemma_expr_wf(*then, *t, m);
                lemma_expr_wf(*else_, *e, m);
            },
            _ => {},
        },
        Expr::Array(items) => match b {
            Expr::Array(xs) => lemma_items_wf(items@, xs@, m),
            _ => {},
        },
        Expr::Object(items) => match b {
            Expr::Object(xs) => lemma_objects_wf(items@, xs@, m),
            _ => {},
        },
        Expr::Template { exprs, .. } => match b {
            Expr::Template { exprs: xs, .. } => {
                assert(canon_exprs(exprs@, xs@, m));
                assert(exprs@.len() == xs@.len());
                lemma_exprs_wf(exprs@, xs@, m);
            },
            _ => {},
        },
        Expr::Update { target, .. } => match b {
            Expr::Update { target: t, .. } => {
                lemma_assignable(*target, *t, m);
                lemma_expr_wf(*target, *t, m);
            },
            _ => {},
        },
        Expr::CompoundAssign { target, value, .. } => match b {
            Expr::CompoundAssign { target: t, value: v, .. } => {
                lemma_assignable(*target, *t, m);
                lemma_expr_wf(*target, *t, m);
                lemma_expr_wf(*value, *v, m);
            },
            _ => {},
        },
        Expr::Arrow { body, .. } => match b {
            Expr::Arrow { body: x, .. } => lemma_expr_wf(*body, *x, m),
            _ => {},
        },
        Expr::Function { body, .. } => match b {
            Expr::Function { body: x, .. } => lemma_stmts_wf(body@, x@, m),
            _ => {},
        },
        Expr::Return(v) => match (v, b) {
            (Some(x), Expr::Return(Some(y))) => lemma_expr_wf(*x, *y, m),
            _ => {},
        },
        Expr::Yield { value, .. } => match (value, b) {
            (Some(x), Expr::Yield { value: Some(y), .. }) => lemma_expr_wf(*x, *y, m),
            _ => {},
        },
        Expr::Await { value, .. } => match b {
            Expr::Await { value: w, .. } => lemma_expr_wf(*value, *w, m),
            _ => {},
        },
        Expr::Block(es) => match b {
            Expr::Block(xs) => lemma_exprs_wf(es@, xs@, m),
            _ => {},
        },
        Expr::Throw(x) => match b {
            Expr::Throw(y) => lemma_expr_wf(*x, *y, m),
            _ => {},
        },
        Expr::While { cond, body } => match b {
            Expr::While { cond: c, body: x } => {
                lemma_expr_wf(*cond, *c, m);
                lemma_expr_wf(*body, *x, m);
            },
            _ => {},
        },
        Expr::Try { block, catch, finally, .. } => match b {
            Expr::Try { block: bl, catch: c, finally: f, .. } => {
                lemma_exprs_wf(block@, bl@, m);
                match (catch, c) {
                    (Some(x), Some(y)) => lemma_exprs_wf(x@, y@, m),
                    _ => {},
                }
                match (finally, f) {
                    (Some(x), Some(y)) => lemma_exprs_wf(x@, y@, m),
                    _ => {},
                }
            },
            _ => {},
        },
        _ => {},
    }
}

proof fn lemma_exprs_wf(a: Seq<Expr>, b: Seq<Expr>, m: Seq<(String, String)>)
    requires canon_exprs(a, b, m), wf_exprs(a),
    ensures wf_exprs(b),
    decreases a, 1nat,
{
    if a.len() > 0 {
        let (a0, b0) = (a.drop_last(), b.drop_last());
        assert forall|i: int| 0 <= i < a0.len() implies canon_expr(#[trigger] a0[i], b0[i], m) by {
            assert(a0[i] == a[i] && b0[i] == b[i]);
        }
        lemma_exprs_wf(a0, b0, m);
        assert(canon_expr(a[a.len() - 1], b[b.len() - 1], m));
        lemma_expr_wf(a.last(), b.last(), m);
    }
}

proof fn lemma_args_wf(a: Seq<CallArg>, b: Seq<CallArg>, m: Seq<(String, String)>)
    requires canon_args(a, b, m), wf_call_args(a),
    ensures wf_call_args(b),
    decreases a, 1nat,
{
    if a.len() > 0 {
        let (a0, b0) = (a.drop_last(), b.drop_last());
        assert forall|i: int| 0 <= i < a0.len() implies canon_arg(#[trigger] a0[i], b0[i], m) by {
            assert(a0[i] == a[i] && b0[i] == b[i]);
        }
        lemma_args_wf(a0, b0, m);
        assert(canon_arg(a[a.len() - 1], b[b.len() - 1], m));
        assert(wf_call_arg(a.last()));
        match (a.last(), b.last()) {
            (CallArg::Expr(x), CallArg::Expr(y)) => lemma_expr_wf(x, y, m),
            (CallArg::Spread(x), CallArg::Spread(y)) => lemma_expr_wf(x, y, m),
            _ => {},
        }
        assert(wf_call_arg(b.last()));
    }
}

proof fn lemma_items_wf(a: Seq<ArrayItem>, b: Seq<ArrayItem>, m: Seq<(String, String)>)
    requires canon_items(a, b, m), wf_array_items(a),
    ensures wf_array_items(b),
    decreases a, 1nat,
{
    if a.len() > 0 {
        let (a0, b0) = (a.drop_last(), b.drop_last());
        assert forall|i: int| 0 <= i < a0.len() implies canon_item(#[trigger] a0[i], b0[i], m) by {
            assert(a0[i] == a[i] && b0[i] == b[i]);
        }
        lemma_items_wf(a0, b0, m);
        assert(canon_item(a[a.len() - 1], b[b.len() - 1], m));
        assert(wf_array_item(a.last()));
        match (a.last(), b.last()) {
            (ArrayItem::Expr(x), ArrayItem::Expr(y)) => lemma_expr_wf(x, y, m),
            (ArrayItem::Spread(x), ArrayItem::Spread(y)) => lemma_expr_wf(x, y, m),
            _ => {},
        }
        assert(wf_array_item(b.last()));
    }
}

proof fn lemma_objects_wf(a: Seq<ObjectItem>, b: Seq<ObjectItem>, m: Seq<(String, String)>)
    requires canon_objects(a, b, m), wf_object_items(a),
    ensures wf_object_items(b),
    decreases a, 1nat,
{
    if a.len() > 0 {
        let (a0, b0) = (a.drop_last(), b.drop_last());
        assert forall|i: int| 0 <= i < a0.len() implies canon_object(#[trigger] a0[i], b0[i], m) by {
            assert(a0[i] == a[i] && b0[i] == b[i]);
        }
        lemma_objects_wf(a0, b0, m);
        assert(canon_object(a[a.len() - 1], b[b.len() - 1], m));
        assert(wf_object_item(a.last()));
        match (a.last(), b.last()) {
            (ObjectItem::Prop(_, x), ObjectItem::Prop(_, y)) => lemma_expr_wf(x, y, m),
            (ObjectItem::Spread(x), ObjectItem::Spread(y)) => lemma_expr_wf(x, y, m),
            _ => {},
        }
        assert(wf_object_item(b.last()));
    }
}

proof fn lemma_props_wf(a: Seq<Prop>, b: Seq<Prop>, m: Seq<(String, String)>)
    requires canon_props(a, b, m), wf_props(a),
    ensures wf_props(b),
    decreases a, 1nat,
{
    if a.len() > 0 {
        let (a0, b0) = (a.drop_last(), b.drop_last());
        assert forall|i: int| 0 <= i < a0.len() implies canon_prop(#[trigger] a0[i], b0[i], m) by {
            assert(a0[i] == a[i] && b0[i] == b[i]);
        }
        lemma_props_wf(a0, b0, m);
        assert(canon_prop(a[a.len() - 1], b[b.len() - 1], m));
        assert(wf_prop(a.last()));
        match (a.last().value, b.last().value) {
            (Some(x), Some(y)) => lemma_expr_wf(x, y, m),
            _ => {},
        }
        assert(wf_prop(b.last()));
    }
}

proof fn lemma_element_wf(a: Element, b: Element, m: Seq<(String, String)>)
    requires canon_element(a, b, m), wf_element(a),
    ensures wf_element(b),
    decreases a, 1nat,
{
    lemma_props_wf(a.props@, b.props@, m);
    lemma_exprs_wf(a.children@, b.children@, m);
}

proof fn lemma_stmt_wf(a: Stmt, b: Stmt, m: Seq<(String, String)>)
    requires canon_stmt(a, b, m), wf_stmt(a),
    ensures wf_stmt(b),
    decreases a, 1nat,
{
    match a {
        Stmt::Let { value, .. } => match b {
            Stmt::Let { value: v, .. } => lemma_expr_wf(value, v, m),
            _ => {},
        },
        Stmt::Const { value, .. } => match b {
            Stmt::Const { value: v, .. } => lemma_expr_wf(value, v, m),
            _ => {},
        },
        Stmt::Destructure { value, .. } => match b {
            Stmt::Destructure { value: v, .. } => lemma_expr_wf(value, v, m),
            _ => {},
        },
        Stmt::Return(x) => match b {
            Stmt::Return(y) => lemma_expr_wf(x, y, m),
            _ => {},
        },
        Stmt::Expr(x) => match b {
            Stmt::Expr(y) => lemma_expr_wf(x, y, m),
            _ => {},
        },
        Stmt::If { cond, then, else_ } => match b {
            Stmt::If { cond: c, then: t, else_: e } => {
                lemma_expr_wf(cond, c, m);
                lemma_stmts_wf(then@, t@, m);
                match (else_, e) {
                    (Some(x), Some(y)) => lemma_stmts_wf(x@, y@, m),
                    _ => {},
                }
            },
            _ => {},
        },
        Stmt::While { cond, body } => match b {
            Stmt::While { cond: c, body: x } => {
                lemma_expr_wf(cond, c, m);
                lemma_stmts_wf(body@, x@, m);
            },
            _ => {},
        },
        Stmt::For { init, cond, update, body } => match b {
            Stmt::For { init: i, cond: c, update: u, body: x } => {
                match (init, i) {
                    (Some(s), Some(t)) => {
                        lemma_stmt_wf(*s, *t, m);
                        lemma_stmt_kind(*s, *t, m);
                    },
                    _ => {},
                }
                match (cond, c) {
                    (Some(y), Some(z)) => lemma_expr_wf(y, z, m),
                    _ => {},
                }
                match (update, u) {
                    (Some(y), Some(z)) => lemma_expr_wf(y, z, m),
                    _ => {},
                }
                lemma_stmts_wf(body@, x@, m);
            },
            _ => {},
        },
        Stmt::Switch { disc, cases } => match b {
            Stmt::Switch { disc: d, cases: cs } => {
                lemma_expr_wf(disc, d, m);
                lemma_cases_wf(cases@, cs@, m);
            },
            _ => {},
        },
        _ => {},
    }
}

proof fn lemma_stmts_wf(a: Seq<Stmt>, b: Seq<Stmt>, m: Seq<(String, String)>)
    requires canon_stmts(a, b, m), wf_stmts(a),
    ensures wf_stmts(b),
    decreases a, 1nat,
{
    if a.len() > 0 {
        let (a0, b0) = (a.drop_last(), b.drop_last());
        assert forall|i: int| 0 <= i < a0.len() implies canon_stmt(#[trigger] a0[i], b0[i], m) by {
            assert(a0[i] == a[i] && b0[i] == b[i]);
        }
        lemma_stmts_wf(a0, b0, m);
        assert(canon_stmt(a[a.len() - 1], b[b.len() - 1], m));
        lemma_stmt_wf(a.last(), b.last(), m);
    }
}

proof fn lemma_cases_wf(a: Seq<(Option<Expr>, Vec<Stmt>)>, b: Seq<(Option<Expr>, Vec<Stmt>)>, m: Seq<(String, String)>)
    requires canon_cases(a, b, m), wf_cases(a),
    ensures wf_cases(b),
    decreases a, 1nat,
{
    if a.len() > 0 {
        let (a0, b0) = (a.drop_last(), b.drop_last());
        assert forall|i: int| 0 <= i < a0.len() implies canon_case(#[trigger] a0[i], b0[i], m) by {
            assert(a0[i] == a[i] && b0[i] == b[i]);
        }
        lemma_cases_wf(a0, b0, m);
        assert(canon_case(a[a.len() - 1], b[b.len() - 1], m));
        assert(wf_case(a.last()));
        lemma_stmts_wf(a.last().1@, b.last().1@, m);
        assert(wf_case(b.last()));
    }
}

proof fn lemma_decl_wf(a: Decl, b: Decl, m: Seq<(String, String)>)
    requires canon_decl(a, b, m), wf_decl(a),
    ensures wf_decl(b),
{
    match (a, b) {
        (Decl::Component(c), Decl::Component(d)) => lemma_stmts_wf(c.body@, d.body@, m),
        (Decl::Class(c), Decl::Class(d)) => {
            match (c.state, d.state) {
                (Some(x), Some(y)) => lemma_expr_wf(x, y, m),
                _ => {},
            }
            assert forall|i: int| 0 <= i < d.methods@.len() implies #[trigger] wf_method(d.methods@[i]) by {
                assert(wf_method(c.methods@[i]));
                lemma_stmts_wf(c.methods@[i].body@, d.methods@[i].body@, m);
            }
        },
        (Decl::GeneratorFn(g), Decl::GeneratorFn(h)) => lemma_stmts_wf(g.body@, h.body@, m),
        (Decl::FuncDecl(f), Decl::FuncDecl(g)) => lemma_stmts_wf(f.body@, g.body@, m),
        (Decl::TopLevel { value, .. }, Decl::TopLevel { value: v, .. }) => lemma_expr_wf(value, v, m),
        (Decl::ExportDecl(ExportDecl::Function(f)), Decl::ExportDecl(ExportDecl::Function(g))) =>
            lemma_stmts_wf(f.body@, g.body@, m),
        (Decl::ExportDecl(ExportDecl::Const { value, .. }), Decl::ExportDecl(ExportDecl::Const { value: v, .. })) =>
            lemma_expr_wf(value, v, m),
        _ => {},
    }
}

/// Canonical dynamic imports keep a program's declarations well formed.
pub proof fn lemma_canon_program_wf(a: Program, b: Program, m: Seq<(String, String)>)
    requires canon_program(a, b, m), wf_decls(a.decls@),
    ensures wf_decls(b.decls@),
{
    assert forall|i: int| 0 <= i < b.decls@.len() implies #[trigger] wf_decl(b.decls@[i]) by {
        assert(wf_decl(a.decls@[i]));
        lemma_decl_wf(a.decls@[i], b.decls@[i], m);
    }
}

/// The canonical ids of a module's dynamic imports: each specifier of
/// `program` (the code of module `id`), in traversal order, paired with the
/// id `resolver` resolves it to; a specifier that does not resolve gets no
/// entry. Every key is one of the program's dynamic-import specifiers.
pub fn dyn_import_map<R: ModuleResolver>(program: &Program, id: &str, resolver: &R) -> (r: Vec<(String, String)>)
    ensures
        forall|k: int| 0 <= k < r@.len() ==> dyn_decls(program.decls@).contains(#[trigger] r@[k].0@),
        keys_in_order(r@, dyn_decls(program.decls@)),
{
    let specs = dyn_import_specifiers(program);
    let ghost all = dyn_decls(program.decls@);
    let ghost mut pos: Seq<int> = Seq::empty();
    let mut out: Vec<(String, String)> = Vec::new();
    let n = specs.len();
    for i in 0..n
        invariant
            n == specs@.len(),
            string_views(specs@) == all,
            all == dyn_decls(program.decls@),
            pos.len() == out@.len(),
            forall|k: int| 0 <= k < out@.len() ==> 0 <= #[trigger] pos[k] < i && out@[k].0@ == all[pos[k]],
            forall|k: int, l: int| 0 <= k < l < pos.len() ==> #[trigger] pos[k] < #[trigger] pos[l],
    {
        match resolver.resolve(specs[i].as_str(), id) {
            Ok(c) => {
                assert(string_views(specs@)[i as int] == specs@[i as int]@);
                let ghost before = out@;
                let key = specs[i].clone();
                out.push((key, c));
                proof {
                    pos = pos.push(i as int);
                    assert forall|k: int| 0 <= k < out@.len() implies 0 <= #[trigger] pos[k] < i + 1
                        && out@[k].0@ == all[pos[k]] by {
                        if k < before.len() {
                            assert(out@[k] == before[k]);
                        }
                    }
                }
            },
            Err(_) => {},
        }
    }
    proof {
        assert forall|k: int| 0 <= k < out@.len() implies all.contains(#[trigger] out@[k].0@) by {
            assert(0 <= pos[k] < all.len() && out@[k].0@ == all[pos[k]]);
        }
        assert(pos.len() == out@.len() && (forall|k: int| 0 <= k < out@.len() ==> 0 <= #[trigger] pos[k] < all.len()
            && out@[k].0@ == all[pos[k]]));
    }
    out
}

/// The keys of `m` are specifiers of `all`, taken in `all`'s order.
pub open spec fn keys_in_order(m: Seq<(String, String)>, all: Seq<Seq<char>>) -> bool {
    exists|pos: Seq<int>| {
        &&& #[trigger] pos.len() == m.len()
        &&& forall|k: int| 0 <= k < m.len() ==> 0 <= #[trigger] pos[k] < all.len() && m[k].0@ == all[pos[k]]
        &&& forall|k: int, l: int| 0 <= k < l < pos.len() ==> #[trigger] pos[k] < #[trigger] pos[l]
    }
}

/// Each key of `m` is one of the dynamic-import specifiers of `p`.
pub open spec fn keys_are_specifiers(m: Seq<(String, String)>, p: Program) -> bool {
    forall|k: int| 0 <= k < m.len() ==> dyn_decls(p.decls@).contains(#[trigger] m[k].0@)
}

/// `b` is program `a` with its dynamic imports rewritten under some map
/// whose keys are specifiers of `a`.
pub open spec fn canonical_of(a: Program, b: Program) -> bool {
    exists|m: Seq<(String, String)>| canon_program(a, b, m) && #[trigger] keys_are_specifiers(m, a)
}

/// Rewrite each module's dynamic imports to the canonical ids their
/// specifiers resolve to from that module; ids and imports stay as they are.
pub fn canonicalize_modules<R: ModuleResolver>(modules: &mut Vec<GraphModule>, resolver: &R)
    requires
        closed_graph(old(modules)@),
        modules_wf(old(modules)@),
        distinct_strings(module_ids(old(modules)@)),
    ensures
        final(modules)@.len() == old(modules)@.len(),
        forall|j: int| 0 <= j < old(modules)@.len() ==> (#[trigger] final(modules)@[j]).id == old(modules)@[j].id,
        forall|j: int| 0 <= j < old(modules)@.len() ==> (#[trigger] final(modules)@[j]).deps == old(modules)@[j].deps,
        forall|j: int| 0 <= j < old(modules)@.len()
            ==> canonical_of(old(modules)@[j].program, #[trigger] final(modules)@[j].program),
        closed_graph(final(modules)@),
        modules_wf(final(modules)@),
        distinct_strings(module_ids(final(modules)@)),
{
    let ghost start = modules@;
    let ghost mut maps: Seq<Seq<(String, String)>> = Seq::empty();
    let n = modules.len();
    for i in 0..n
        invariant
            n == modules@.len() == start.len(),
            start == old(modules)@,
            modules_wf(start),
            maps.len() == i,
            forall|j: int| 0 <= j < n ==> (#[trigger] modules@[j]).id == start[j].id && modules@[j].deps == start[j].deps,
            forall|j: int| 0 <= j < n ==> wf_decls(#[trigger] modules@[j].program.decls@),
            forall|j: int| i <= j < n ==> (#[trigger] modules@[j]).program == start[j].program,
            forall|j: int| 0 <= j < i ==> canon_program(start[j].program, (#[trigger] modules@[j]).program, maps[j])
                && keys_are_specifiers(maps[j], start[j].program),
    {
        let canon = dyn_import_map(&modules[i].program, modules[i].id.as_str(), resolver);
        let ghost before = modules@[i as int].program;
        canonicalize_dyn_imports(&mut modules[i].program, &canon);
        proof {
            lemma_canon_program_wf(before, modules@[i as int].program, canon@);
            maps = maps.push(canon@);
        }
    }
    proof {
        assert forall|j: int| 0 <= j < n implies canonical_of(start[j].program, #[trigger] modules@[j].program) by {
            assert(canon_program(start[j].program, modules@[j].program, maps[j]));
            assert(keys_are_specifiers(maps[j], start[j].program));
        }
    }
    proof {
        assert(module_ids(modules@) =~= module_ids(start));
        assert forall|i: int, j: int| 0 <= i < modules@.len() && 0 <= j < modules@[i].deps@.len()
            implies has_module(modules@, #[trigger] modules@[i].deps@[j]@) by {
            assert(modules@[i].deps == start[i].deps);
            assert(has_module(start, start[i].deps@[j]@));
            let w = choose|w: int| 0 <= w < start.len() && #[trigger] start[w].id@ == start[i].deps@[j]@;
            assert(modules@[w].id == start[w].id);
        }
        assert forall|i: int| 0 <= i < modules@.len() implies wf_decls(#[trigger] modules@[i].program.decls@)
            && distinct_strings(modules@[i].deps@) by {
            assert(modules@[i].deps == start[i].deps);
            assert(wf_decls(start[i].program.decls@));
        }
    }
}

/// The canonical form of a specifier's text under `m`.
pub open spec fn canon_view(s: Seq<char>, m: Seq<(String, String)>) -> Seq<char> {
    match assoc_get(m, s) {
        Some(c) => c@,
        None => s,
    }
}

/// Each specifier of `ss` in canonical form.
pub open spec fn canon_all(ss: Seq<Seq<char>>, m: Seq<(String, String)>) -> Seq<Seq<char>> {
    ss.map_values(|x: Seq<char>| canon_view(x, m))
}

proof fn lemma_canon_all_concat(x: Seq<Seq<char>>, y: Seq<Seq<char>>, m: Seq<(String, String)>)
    ensures canon_all(x + y, m) == canon_all(x, m) + canon_all(y, m),
{
    assert(canon_all(x + y, m) =~= canon_all(x, m) + canon_all(y, m));
}

proof fn lemma_canon_all_empty(m: Seq<(String, String)>)
    ensures canon_all(Seq::<Seq<char>>::empty(), m) == Seq::<Seq<char>>::empty(),
{
    assert(canon_all(Seq::<Seq<char>>::empty(), m) =~= Seq::<Seq<char>>::empty());
}

proof fn lemma_dyn_expr(a: Expr, b: Expr, m: Seq<(String, String)>)
    requires canon_expr(a, b, m),
    ensures dyn_expr(b) == canon_all(dyn_expr(a), m),
    decreases a, 1nat,
{
    lemma_canon_all_empty(m);
    match a {
        Expr::DynImport { specifier } => {
            assert(canon_all(seq![specifier@], m) =~= seq![canon_view(specifier@, m)]);
        },
        Expr::Member { base, .. } => match b {
            Expr::Member { base: x, .. } => lemma_dyn_expr(*base, *x, m),
            _ => {},
        },
        Expr::Binary { left, right, .. } => match b {
            Expr::Binary { left: l, right: r, .. } => {
                lemma_dyn_expr(*left, *l, m);
                lemma_dyn_expr(*right, *r, m);
                lemma_canon_all_concat(dyn_expr(*left), dyn_expr(*right), m);
            },
            _ => {},
        },
        Expr::Unary { expr, .. } => match b {
            Expr::Unary { expr: x, .. } => lemma_dyn_expr(*expr, *x, m),
            _ => {},
        },
        Expr::Call { callee, args } => match b {
            Expr::Call { callee: c, args: xs } => {
                lemma_dyn_expr(*callee, *c, m);
                lemma_dyn_args(args@, xs@, m);
                lemma_canon_all_concat(dyn_expr(*callee), dyn_args(args@), m);
            },
            _ => {},
        },
        Expr::New { callee, args } => match b {
            Expr::New { callee: c, args: xs } => {
                lemma_dyn_expr(*callee, *c, m);
                lemma_dyn_args(args@, xs@, m);
                lemma_canon_all_concat(dyn_expr(*callee), dyn_args(args@), m);
            },
            _ => {},
        },
        Expr::Assign { target, value } => match b {
            Expr::Assign { target: t, value: v } => {
                lemma_dyn_expr(*target, *t, m);
                lemma_dyn_expr(*value, *v, m);
                lemma_canon_all_concat(dyn_expr(*target), dyn_expr(*value), m);
            },
            _ => {},
        },
        Expr::Element(el) => match b {
            Expr::Element(x) => {
                assert(canon_element(el, x, m));
                lemma_dyn_exprs(el.children@, x.children@, m);
                lemma_dyn_props(el.props@, x.props@, m);
                lemma_canon_all_concat(dyn_exprs(el.children@), dyn_props(el.props@), m);
            },
            _ => {},
        },
        Expr::Ternary { cond, then, else_ } => match b {
            Expr::Ternary { cond: c, then: t, else_: e } => {
                lemma_dyn_expr(*cond, *c, m);
                lemma_dyn_expr(*then, *t, m);
                lemma_dyn_expr(*else_, *e, m);
                lemma_canon_all_concat(dyn_expr(*cond), dyn_expr(*then), m);
                lemma_canon_all_concat(dyn_expr(*cond) + dyn_expr(*then), dyn_expr(*else_), m);
            },
            _ => {},
        },
        Expr::Array(items) => match b {
            Expr::Array(xs) => lemma_dyn_items(items@, xs@, m),
            _ => {},
        },
        Expr::Object(items) => match b {
            Expr::Object(xs) => lemma_dyn_objects(items@, xs@, m),
            _ => {},
        },
        Expr::Template { exprs, .. } => match b {
            Expr::Template { exprs: xs, .. } => lemma_dyn_exprs(exprs@, xs@, m),
            _ => {},
        },
        Expr::Update { target, .. } => match b {
            Expr::Update { target: t, .. } => lemma_dyn_expr(*target, *t, m),
            _ => {},
        },
        Expr::CompoundAssign { target, value, .. } => match b {
            Expr::CompoundAssign { target: t, value: v, .. } => {
                lemma_dyn_expr(*target, *t, m);
                lemma_dyn_expr(*value, *v, m);
                lemma_canon_all_concat(dyn_expr(*target), dyn_expr(*value), m);
            },
            _ => {},
        },
        Expr::Arrow { body, .. } => match b {
            Expr::Arrow { body: x, .. } => lemma_dyn_expr(*body, *x, m),
            _ => {},
        },
        Expr::Function { body, .. } => match b {
            Expr::Function { body: x, .. } => lemma_dyn_stmts(body@, x@, m),
            _ => {},
        },
        Expr::Return(v) => match (v, b) {
            (Some(x), Expr::Return(Some(y))) => lemma_dyn_expr(*x, *y, m),
            _ => {},
        },
        Expr::Yield { value, .. } => match (value, b) {
            (Some(x), Expr::Yield { value: Some(y), .. }) => lemma_dyn_expr(*x, *y, m),
            _ => {},
        },
        Expr::Await { value, .. } => match b {
            Expr::Await { value: w, .. } => lemma_dyn_expr(*value, *w, m),
            _ => {},
        },
        Expr::Block(es) => match b {
            Expr::Block(xs) => lemma_dyn_exprs(es@, xs@, m),
            _ => {},
        },
        Expr::Throw(x) => match b {
            Expr::Throw(y) => lemma_dyn_expr(*x, *y, m),
            _ => {},
        },
        Expr::While { cond, body } => match b {
            Expr::While { cond: c, body: x } => {
                lemma_dyn_expr(*cond, *c, m);
                lemma_dyn_expr(*body, *x, m);
                lemma_canon_all_concat(dyn_expr(*cond), dyn_expr(*body), m);
            },
            _ => {},
        },
        Expr::Try { block, catch, finally, .. } => match b {
            Expr::Try { block: bl, catch: c, finally: f, .. } => {
                lemma_dyn_exprs(block@, bl@, m);
                let dc = match catch {
                    Some(x) => dyn_exprs(x@),
                    None => Seq::empty(),
                };
                let df = match finally {
                    Some(x) => dyn_exprs(x@),
                    None => Seq::empty(),
                };
                match (catch, c) {
                    (Some(x), Some(y)) => lemma_dyn_exprs(x@, y@, m),
                    _ => {},
                }
                match (finally, f) {
                    (Some(x), Some(y)) => lemma_dyn_exprs(x@, y@, m),
                    _ => {},
                }
                lemma_canon_all_concat(dyn_exprs(block@), dc, m);
                lemma_canon_all_concat(dyn_exprs(block@) + dc, df, m);
            },
            _ => {},
        },
        _ => {},
    }
}

proof fn lemma_dyn_exprs(a: Seq<Expr>, b: Seq<Expr>, m: Seq<(String, String)>)
    requires canon_exprs(a, b, m),
    ensures dyn_exprs(b) == canon_all(dyn_exprs(a), m),
    decreases a, 1nat,
{
    lemma_canon_all_empty(m);
    if a.len() > 0 {
        let (a0, b0) = (a.drop_last(), b.drop_last());
        assert forall|i: int| 0 <= i < a0.len() implies canon_expr(#[trigger] a0[i], b0[i], m) by {
            assert(a0[i] == a[i] && b0[i] == b[i]);
        }
        lemma_dyn_exprs(a0, b0, m);
        assert(canon_expr(a[a.len() - 1], b[b.len() - 1], m));
        lemma_dyn_expr(a.last(), b.last(), m);
        lemma_canon_all_concat(dyn_exprs(a0), dyn_expr(a.last()), m);
    }
}

proof fn lemma_dyn_args(a: Seq<CallArg>, b: Seq<CallArg>, m: Seq<(String, String)>)
    requires canon_args(a, b, m),
    ensures dyn_args(b) == canon_all(dyn_args(a), m),
    decreases a, 1nat,
{
    lemma_canon_all_empty(m);
    if a.len() > 0 {
        let (a0, b0) = (a.drop_last(), b.drop_last());
        assert forall|i: int| 0 <= i < a0.len() implies canon_arg(#[trigger] a0[i], b0[i], m) by {
            assert(a0[i] == a[i] && b0[i] == b[i]);
        }
        lemma_dyn_args(a0, b0, m);
        assert(canon_arg(a[a.len() - 1], b[b.len() - 1], m));
        match (a.last(), b.last()) {
            (CallArg::Expr(x), CallArg::Expr(y)) => {
                lemma_dyn_expr(x, y, m);
                lemma_canon_all_concat(dyn_args(a0), dyn_expr(x), m);
            },
            (CallArg::Spread(x), CallArg::Spread(y)) => {
                lemma_dyn_expr(x, y, m);
                lemma_canon_all_concat(dyn_args(a0), dyn_expr(x), m);
            },
            _ => {},
        }
    }
}

proof fn lemma_dyn_items(a: Seq<ArrayItem>, b: Seq<ArrayItem>, m: Seq<(String, String)>)
    requires canon_items(a, b, m),
    ensures dyn_items(b) == canon_all(dyn_items(a), m),
    decreases a, 1nat,
{
    lemma_canon_all_empty(m);
    if a.len() > 0 {
        let (a0, b0) = (a.drop_last(), b.drop_last());
        assert forall|i: int| 0 <= i < a0.len() implies canon_item(#[trigger] a0[i], b0[i], m) by {
            assert(a0[i] == a[i] && b0[i] == b[i]);
        }
        lemma_dyn_items(a0, b0, m);
        assert(canon_item(a[a.len() - 1], b[b.len() - 1], m));
        match (a.last(), b.last()) {
            (ArrayItem::Expr(x), ArrayItem::Expr(y)) => {
                lemma_dyn_expr(x, y, m);
                lemma_canon_all_concat(dyn_items(a0), dyn_expr(x), m);
            },
            (ArrayItem::Spread(x), ArrayItem::Spread(y)) => {
                lemma_dyn_expr(x, y, m);
                lemma_canon_all_concat(dyn_items(a0), dyn_expr(x), m);
            },
            _ => {},
        }
    }
}

proof fn lemma_dyn_objects(a: Seq<ObjectItem>, b: Seq<ObjectItem>, m: Seq<(String, String)>)
    requires canon_objects(a, b, m),
    ensures dyn_objects(b) == canon_all(dyn_objects(a), m),
    decreases a, 1nat,
{
    lemma_canon_all_empty(m);
    if a.len() > 0 {
        let (a0, b0) = (a.drop_last(), b.drop_last());
        assert forall|i: int| 0 <= i < a0.len() implies canon_object(#[trigger] a0[i], b0[i], m) by {
            assert(a0[i] == a[i] && b0[i] == b[i]);
        }
        lemma_dyn_objects(a0, b0, m);
        assert(canon_object(a[a.len() - 1], b[b.len() - 1], m));
        match (a.last(), b.last()) {
            (ObjectItem::Prop(_, x), ObjectItem::Prop(_, y)) => {
                lemma_dyn_expr(x, y, m);
                lemma_canon_all_concat(dyn_objects(a0), dyn_expr(x), m);
            },
            (ObjectItem::Spread(x), ObjectItem::Spread(y)) => {
                lemma_dyn_expr(x, y, m);
                lemma_canon_all_concat(dyn_objects(a0), dyn_expr(x), m);
            },
            _ => {
                lemma_canon_all_concat(dyn_objects(a0), Seq::empty(), m);
            },
        }
    }
}

proof fn lemma_dyn_props(a: Seq<Prop>, b: Seq<Prop>, m: Seq<(String, String)>)
    requires canon_props(a, b, m),
    ensures dyn_props(b) == canon_all(dyn_props(a), m),
    decreases a, 1nat,
{
    lemma_canon_all_empty(m);
    if a.len() > 0 {
        let (a0, b0) = (a.drop_last(), b.drop_last());
        assert forall|i: int| 0 <= i < a0.len() implies canon_prop(#[trigger] a0[i], b0[i], m) by {
            assert(a0[i] == a[i] && b0[i] == b[i]);
        }
        lemma_dyn_props(a0, b0, m);
        assert(canon_prop(a[a.len() - 1], b[b.len() - 1], m));
        match (a.last().value, b.last().value) {
            (Some(x), Some(y)) => {
                lemma_dyn_expr(x, y, m);
                lemma_canon_all_concat(dyn_props(a0), dyn_expr(x), m);
            },
            _ => {
                lemma_canon_all_concat(dyn_props(a0), Seq::empty(), m);
            },
        }
    }
}

proof fn lemma_dyn_stmt(a: Stmt, b: Stmt, m: Seq<(String, String)>)
    requires canon_stmt(a, b, m),
    ensures dyn_stmt(b) == canon_all(dyn_stmt(a), m),
    decreases a, 1nat,
{
    lemma_canon_all_empty(m);
    match a {
        Stmt::Let { value, .. } => match b {
            Stmt::Let { value: v, .. } => lemma_dyn_expr(value, v, m),
            _ => {},
        },
        Stmt::Const { value, .. } => match b {
            Stmt::Const { value: v, .. } => lemma_dyn_expr(value, v, m),
            _ => {},
        },
        Stmt::Destructure { value, .. } => match b {
            Stmt::Destructure { value: v, .. } => lemma_dyn_expr(value, v, m),
            _ => {},
        },
        Stmt::Return(x) => match b {
            Stmt::Return(y) => lemma_dyn_expr(x, y, m),
            _ => {},
        },
        Stmt::Expr(x) => match b {
            Stmt::Expr(y) => lemma_dyn_expr(x, y, m),
            _ => {},
        },
        Stmt::If { cond, then, else_ } => match b {
            Stmt::If { cond: c, then: t, else_: e } => {
                lemma_dyn_expr(cond, c, m);
                lemma_dyn_stmts(then@, t@, m);
                let de = match else_ {
                    Some(x) => dyn_stmts(x@),
                    None => Seq::empty(),
                };
                match (else_, e) {
                    (Some(x), Some(y)) => lemma_dyn_stmts(x@, y@, m),
                    _ => {},
                }
                lemma_canon_all_concat(dyn_expr(cond), dyn_stmts(then@), m);
                lemma_canon_all_concat(dyn_expr(cond) + dyn_stmts(then@), de, m);
            },
            _ => {},
        },
        Stmt::While { cond, body } => match b {
            Stmt::While { cond: c, body: x } => {
                lemma_dyn_expr(cond, c, m);
                lemma_dyn_stmts(body@, x@, m);
                lemma_canon_all_concat(dyn_expr(cond), dyn_stmts(body@), m);
            },
            _ => {},
        },
        Stmt::For { init, cond, update, body } => match b {
            Stmt::For { init: i, cond: c, update: u, body: x } => {
                let di = match init {
                    Some(s) => dyn_stmt(*s),
                    None => Seq::empty(),
                };
                let dc = match cond {
                    Some(y) => dyn_expr(y),
                    None => Seq::empty(),
                };
                let du = match update {
                    Some(y) => dyn_expr(y),
                    None => Seq::empty(),
                };
                match (init, i) {
                    (Some(s), Some(t)) => lemma_dyn_stmt(*s, *t, m),
                    _ => {},
                }
                match (cond, c) {
                    (Some(y), Some(z)) => lemma_dyn_expr(y, z, m),
                    _ => {},
                }
                match (update, u) {
                    (Some(y), Some(z)) => lemma_dyn_expr(y, z, m),
                    _ => {},
                }
                lemma_dyn_stmts(body@, x@, m);
                lemma_canon_all_concat(di, dc, m);
                lemma_canon_all_concat(di + dc, du, m);
                lemma_canon_all_concat(di + dc + du, dyn_stmts(body@), m);
            },
            _ => {},
        },
        Stmt::Switch { disc, cases } => match b {
            Stmt::Switch { disc: d, cases: cs } => {
                lemma_dyn_expr(disc, d, m);
                lemma_dyn_cases(cases@, cs@, m);
                lemma_canon_all_concat(dyn_expr(disc), dyn_cases(cases@), m);
            },
            _ => {},
        },
        _ => {},
    }
}

proof fn lemma_dyn_stmts(a: Seq<Stmt>, b: Seq<Stmt>, m: Seq<(String, String)>)
    requires canon_stmts(a, b, m),
    ensures dyn_stmts(b) == canon_all(dyn_stmts(a), m),
    decreases a, 1nat,
{
    lemma_canon_all_empty(m);
    if a.len() > 0 {
        let (a0, b0) = (a.drop_last(), b.drop_last());
        assert forall|i: int| 0 <= i < a0.len() implies canon_stmt(#[trigger] a0[i], b0[i], m) by {
            assert(a0[i] == a[i] && b0[i] == b[i]);
        }
        lemma_dyn_stmts(a0, b0, m);
        assert(canon_stmt(a[a.len() - 1], b[b.len() - 1], m));
        lemma_dyn_stmt(a.last(), b.last(), m);
        lemma_canon_all_concat(dyn_stmts(a0), dyn_stmt(a.last()), m);
    }
}

proof fn lemma_dyn_cases(a: Seq<(Option<Expr>, Vec<Stmt>)>, b: Seq<(Option<Expr>, Vec<Stmt>)>, m: Seq<(String, String)>)
    requires canon_cases(a, b, m),
    ensures dyn_cases(b) == canon_all(dyn_cases(a), m),
    decreases a, 1nat,
{
    lemma_canon_all_empty(m);
    if a.len() > 0 {
        let (a0, b0) = (a.drop_last(), b.drop_last());
        assert forall|i: int| 0 <= i < a0.len() implies canon_case(#[trigger] a0[i], b0[i], m) by {
            assert(a0[i] == a[i] && b0[i] == b[i]);
        }
        lemma_dyn_cases(a0, b0, m);
        assert(canon_case(a[a.len() - 1], b[b.len() - 1], m));
        lemma_dyn_stmts(a.last().1@, b.last().1@, m);
        lemma_canon_all_concat(dyn_cases(a0), dyn_stmts(a.last().1@), m);
    }
}

proof fn lemma_dyn_methods(a: Seq<Method>, b: Seq<Method>, m: Seq<(String, String)>)
    requires canon_methods(a, b, m),
    ensures dyn_methods(b) == canon_all(dyn_methods(a), m),
    decreases a.len(),
{
    lemma_canon_all_empty(m);
    if a.len() > 0 {
        let (a0, b0) = (a.drop_last(), b.drop_last());
        assert(canon_methods(a0, b0, m)) by {
            assert forall|i: int| 0 <= i < a0.len() implies {
                &&& b0[i].name == (#[trigger] a0[i]).name
                &&& b0[i].params == a0[i].params
                &&& canon_stmts(a0[i].body@, b0[i].body@, m)
            } by {
                assert(a0[i] == a[i] && b0[i] == b[i]);
            }
        }
        lemma_dyn_methods(a0, b0, m);
        assert(canon_stmts(a[a.len() - 1].body@, b[b.len() - 1].body@, m));
        lemma_dyn_stmts(a.last().body@, b.last().body@, m);
        lemma_canon_all_concat(dyn_methods(a0), dyn_stmts(a.last().body@), m);
    }
}

proof fn lemma_dyn_decl(a: Decl, b: Decl, m: Seq<(String, String)>)
    requires canon_decl(a, b, m),
    ensures dyn_decl(b) == canon_all(dyn_decl(a), m),
{
    lemma_canon_all_empty(m);
    match (a, b) {
        (Decl::Component(c), Decl::Component(d)) => lemma_dyn_stmts(c.body@, d.body@, m),
        (Decl::Class(c), Decl::Class(d)) => {
            let ds = match c.state {
                Some(x) => dyn_expr(x),
                None => Seq::empty(),
            };
            match (c.state, d.state) {
                (Some(x), Some(y)) => lemma_dyn_expr(x, y, m),
                _ => {},
            }
            lemma_dyn_methods(c.methods@, d.methods@, m);
            lemma_canon_all_concat(ds, dyn_methods(c.methods@), m);
        },
        (Decl::GeneratorFn(g), Decl::GeneratorFn(h)) => lemma_dyn_stmts(g.body@, h.body@, m),
        (Decl::FuncDecl(f), Decl::FuncDecl(g)) => lemma_dyn_stmts(f.body@, g.body@, m),
        (Decl::TopLevel { value, .. }, Decl::TopLevel { value: v, .. }) => lemma_dyn_expr(value, v, m),
        (Decl::ExportDecl(ExportDecl::Function(f)), Decl::ExportDecl(ExportDecl::Function(g))) =>
            lemma_dyn_stmts(f.body@, g.body@, m),
        (Decl::ExportDecl(ExportDecl::Const { value, .. }), Decl::ExportDecl(ExportDecl::Const { value: v, .. })) =>
            lemma_dyn_expr(value, v, m),
        _ => {},
    }
}

proof fn lemma_dyn_decls(a: Seq<Decl>, b: Seq<Decl>, m: Seq<(String, String)>)
    requires
        a.len() == b.len(),
        forall|i: int| 0 <= i < a.len() ==> canon_decl(#[trigger] a[i], b[i], m),
    ensures dyn_decls(b) == canon_all(dyn_decls(a), m),
    decreases a.len(),
{
    lemma_canon_all_empty(m);
    if a.len() > 0 {
        let (a0, b0) = (a.drop_last(), b.drop_last());
        assert forall|i: int| 0 <= i < a0.len() implies canon_decl(#[trigger] a0[i], b0[i], m) by {
            assert(a0[i] == a[i] && b0[i] == b[i]);
        }
        lemma_dyn_decls(a0, b0, m);
        assert(canon_decl(a[a.len() - 1], b[b.len() - 1], m));
        lemma_dyn_decl(a.last(), b.last(), m);
        lemma_canon_all_concat(dyn_decls(a0), dyn_decl(a.last()), m);
    }
}

/// The dynamic-import specifiers of a canonical program are those of the
/// program it was made from, in the same order, each in canonical form.
pub proof fn lemma_canon_specifiers(a: Program, b: Program, m: Seq<(String, String)>)
    requires canon_program(a, b, m),
    ensures dyn_decls(b.decls@) == canon_all(dyn_decls(a.decls@), m),
{
    lemma_dyn_decls(a.decls@, b.decls@, m);
}

} // verus!
