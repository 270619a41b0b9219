//! Shape questions the lowering asks of the AST: whether an expression
//! suspends (holds an `await` or `yield` of its own), whether it renders a
//! node on one side of a short-circuit, and the short name of a statement's
//! kind used in error messages.

use vstd::prelude::*;
use crate::ast::expr::{ArrayItem, CallArg, Expr, ObjectItem};
use crate::ast::op::BinOp;
use crate::ast::program::Stmt;

verus! {

/// An expression suspends when it holds an `await` or a `yield` outside any
/// nested arrow function (an arrow's suspensions belong to the arrow).
/// Function expressions, elements, `throw` and `try` are not looked into.
pub open spec fn suspends(e: Expr) -> bool
    decreases e, 1nat,
{
    match e {
        Expr::Await { .. } => true,
        Expr::Yield { .. } => true,
        Expr::Arrow { .. } => false,
        Expr::Assign { target, value } => suspends(*target) || suspends(*value),
        Expr::Binary { left, right, .. } => suspends(*left) || suspends(*right),
        Expr::Unary { expr, .. } => suspends(*expr),
        Expr::Ternary { cond, then, else_ } => suspends(*cond) || suspends(*then) || suspends(*else_),
        Expr::Call { callee, args } => suspends(*callee) || suspends_args(args@),
        Expr::New { callee, args } => suspends(*callee) || suspends_args(args@),
        Expr::Member { base, .. } => suspends(*base),
        Expr::Array(items) => suspends_items(items@),
        Expr::Object(items) => suspends_objects(items@),
        Expr::Template { exprs, .. } => suspends_exprs(exprs@),
        Expr::Update { target, .. } => suspends(*target),
        Expr::CompoundAssign { target, value, .. } => suspends(*target) || suspends(*value),
        Expr::While { cond, body } => suspends(*cond) || suspends(*body),
        Expr::Block(es) => suspends_exprs(es@),
        Expr::Return(v) => match v {
            Some(x) => suspends(*x),
            None => false,
        },
        _ => false,
    }
}

/// Some expression of the list suspends.
pub open spec fn suspends_exprs(s: Seq<Expr>) -> bool
    decreases s, 1nat,
{
    if s.len() == 0 { false } else { suspends_exprs(s.drop_last()) || suspends(s.last()) }
}

/// Some call argument (plain or spread) suspends.
pub open spec fn suspends_args(s: Seq<CallArg>) -> bool
    decreases s, 1nat,
{
    if s.len() == 0 {
        false
    } else {
        suspends_args(s.drop_last()) || match s.last() {
            CallArg::Expr(x) => suspends(x),
            CallArg::Spread(x) => suspends(x),
        }
    }
}

/// Some array item (plain or spread) suspends.
pub open spec fn suspends_items(s: Seq<ArrayItem>) -> bool
    decreases s, 1nat,
{
    if s.len() == 0 {
        false
    } else {
        suspends_items(s.drop_last()) || match s.last() {
            ArrayItem::Expr(x) => suspends(x),
            ArrayItem::Spread(x) => suspends(x),
        }
    }
}

/// Some object item's value (a property value or a spread) suspends.
pub open spec fn suspends_objects(s: Seq<ObjectItem>) -> bool
    decreases s, 1nat,
{
    if s.len() == 0 {
        false
    } else {
        suspends_objects(s.drop_last()) || match s.last() {
            ObjectItem::Shorthand(_) => false,
            ObjectItem::Prop(_, x) => suspends(x),
            ObjectItem::Spread(x) => suspends(x),
        }
    }
}

fn exprs_contain_await(es: &Vec<Expr>) -> (r: bool)
    ensures r == suspends_exprs(es@),
    decreases es@, 2nat,
{
    let n = es.len();
    let mut r = false;
    assert(es@.take(0) =~= Seq::<Expr>::empty());
    for i in 0..n
        invariant
            n == es@.len(),
            r == suspends_exprs(es@.take(i as int)),
    {
        assert(es@.take(i + 1).drop_last() =~= es@.take(i as int));
        assert(es@.take(i + 1).last() == es@[i as int]);
        if !r {
            assert(decreases_to!(es@ => es@[i as int]));
            r = contains_await(&es[i]);
        }
    }
    assert(es@.take(n as int) =~= es@);
    r
}

fn args_contain_await(e: &Expr, args: &Vec<CallArg>) -> (r: bool)
    requires
        (*e matches Expr::Call { args: a, .. } && a == *args)
            || (*e matches Expr::New { args: a, .. } && a == *args),
    ensures r == suspends_args(args@),
    decreases e, 0nat,
{
    let n = args.len();
    let mut r = false;
    assert(args@.take(0) =~= Seq::<CallArg>::empty());
    for i in 0..n
        invariant
            n == args@.len(),
            (*e matches Expr::Call { args: a, .. } && a == *args)
                || (*e matches Expr::New { args: a, .. } && a == *args),
            r == suspends_args(args@.take(i as int)),
    {
        assert(args@.take(i + 1).drop_last() =~= args@.take(i as int));
        assert(args@.take(i + 1).last() == args@[i as int]);
        if !r {
            assert(decreases_to!(*args => args@));
            assert(decreases_to!(args@ => args@[i as int]));
            r = match &args[i] {
                CallArg::Expr(x) => contains_await(x),
                CallArg::Spread(x) => contains_await(x),
            };
        }
    }
    assert(args@.take(n as int) =~= args@);
    r
}

fn items_contain_await(e: &Expr) -> (r: bool)
    requires *e is Array,
    ensures r == suspends(*e),
    decreases e, 0nat,
{
    match e {
        Expr::Array(items) => {
            let n = items.len();
            let mut r = false;
            assert(items@.take(0) =~= Seq::<ArrayItem>::empty());
            for i in 0..n
                invariant
                    n == items@.len(),
                    *e == Expr::Array(*items),
                    r == suspends_items(items@.take(i as int)),
            {
                assert(items@.take(i + 1).drop_last() =~= items@.take(i as int));
                assert(items@.take(i + 1).last() == items@[i as int]);
                if !r {
                    assert(decreases_to!(*e => e->Array_0));
                    assert(decreases_to!(*items => items@));
                    assert(decreases_to!(items@ => items@[i as int]));
                    r = match &items[i] {
                        ArrayItem::Expr(x) => contains_await(x),
                        ArrayItem::Spread(x) => contains_await(x),
                    };
                }
            }
            assert(items@.take(n as int) =~= items@);
            r
        },
        _ => false,
    }
}

fn objects_contain_await(e: &Expr) -> (r: bool)
    requires *e is Object,
    ensures r == suspends(*e),
    decreases e, 0nat,
{
    match e {
        Expr::Object(items) => {
            let n = items.len();
            let mut r = false;
            assert(items@.take(0) =~= Seq::<ObjectItem>::empty());
            for i in 0..n
                invariant
                    n == items@.len(),
                    *e == Expr::Object(*items),
                    r == suspends_objects(items@.take(i as int)),
            {
                assert(items@.take(i + 1).drop_last() =~= items@.take(i as int));
                assert(items@.take(i + 1).last() == items@[i as int]);
                if !r {
                    assert(decreases_to!(*e => e->Object_0));
                    assert(decreases_to!(*items => items@));
                    assert(decreases_to!(items@ => items@[i as int]));
                    r = match &items[i] {
                        ObjectItem::Shorthand(_) => false,
                        ObjectItem::Prop(_, v) => contains_await(v),
                        ObjectItem::Spread(x) => contains_await(x),
                    };
                }
            }
            assert(items@.take(n as int) =~= items@);
            r
        },
        _ => false,
    }
}

/// Whether the expression holds an `await` or `yield` of its own, outside
/// any nested arrow function.
#[verifier::spinoff_prover]
pub fn contains_await(e: &Expr) -> (r: bool)
    ensures r == suspends(*e),
    decreases e, 1nat,
{
    match e {
        Expr::Await { .. } => true,
        Expr::Yield { .. } => true,
        Expr::Arrow { .. } => false,
        Expr::Assign { target, value } => contains_await(target) || contains_await(value),
        Expr::Binary { left, right, .. } => contains_await(left) || contains_await(right),
        Expr::Unary { expr, .. } => contains_await(expr),
        Expr::Ternary { cond, then, else_ } => {
            contains_await(cond) || contains_await(then) || contains_await(else_)
        },
        Expr::Call { callee, args } => contains_await(callee) || args_contain_await(e, args),
        Expr::New { callee, args } => contains_await(callee) || args_contain_await(e, args),
        Expr::Member { base, .. } => contains_await(base),
        Expr::Array(_) => items_contain_await(e),
        Expr::Object(_) => objects_contain_await(e),
        Expr::Template { exprs, .. } => {
            assert(decreases_to!(*e => e->Template_exprs));
            assert(decreases_to!(*exprs => exprs@));
            exprs_contain_await(exprs)
        },
        Expr::Update { target, .. } => contains_await(target),
        Expr::CompoundAssign { target, value, .. } => {
            contains_await(target) || contains_await(value)
        },
        Expr::While { cond, body } => contains_await(cond) || contains_await(body),
        Expr::Block(es) => {
            assert(decreases_to!(*e => e->Block_0));
            assert(decreases_to!(*es => es@));
            exprs_contain_await(es)
        },
        Expr::Return(v) => match v {
            Some(x) => contains_await(x),
            None => false,
        },
        _ => false,
    }
}

/// An expression renders a node by its shape: an element or a conditional.
pub open spec fn renders_node(e: Expr) -> bool {
    e is Element || e is Ternary
}

/// Whether the expression is an element or a conditional, the shapes that
/// render a node rather than a text value.
pub fn is_renderable_expr(expr: &Expr) -> (r: bool)
    ensures r == renders_node(*expr),
{
    match expr {
        Expr::Element(_) => true,
        Expr::Ternary { .. } => true,
        _ => false,
    }
}

/// A short-circuit (`&&` or `||`) one side of which renders a node.
pub open spec fn short_circuit_render(e: Expr) -> bool {
    e matches Expr::Binary { op, left, right }
        && (op == BinOp::And || op == BinOp::Or)
        && (renders_node(*left) || renders_node(*right))
}

/// Whether the expression is a short-circuit (`cond && <el/>`,
/// `cond || <el/>`) that renders a node on one of its sides; other values
/// render as text.
pub fn is_short_circuit_render(expr: &Expr) -> (r: bool)
    ensures r == short_circuit_render(*expr),
{
    match expr {
        Expr::Binary { op, left, right } => {
            let logical = match op {
                BinOp::And => true,
                BinOp::Or => true,
                _ => false,
            };
            logical && (is_renderable_expr(left) || is_renderable_expr(right))
        },
        _ => false,
    }
}

/// The short name of a statement's kind, as used in error messages.
pub open spec fn stmt_kind_text(s: Stmt) -> Seq<char> {
    match s {
        Stmt::Let { .. } => "let"@,
        Stmt::Const { .. } => "const"@,
        Stmt::Destructure { .. } => "destructuring declaration"@,
        Stmt::Return(_) => "return"@,
        Stmt::Expr(_) => "expression statement"@,
        Stmt::If { .. } => "if statement"@,
        Stmt::While { .. } => "while loop"@,
        Stmt::For { .. } => "for loop"@,
        Stmt::Switch { .. } => "switch statement"@,
        Stmt::Break => "break"@,
        Stmt::Continue => "continue"@,
    }
}

/// The short name of a statement's kind (`"let"`, `"while loop"`, ...).
pub fn stmt_kind(s: &Stmt) -> (r: &'static str)
    ensures r@ == stmt_kind_text(*s),
{
    match s {
        Stmt::Let { .. } => "let",
        Stmt::Const { .. } => "const",
        Stmt::Destructure { .. } => "destructuring declaration",
        Stmt::Return(_) => "return",
        Stmt::Expr(_) => "expression statement",
        Stmt::If { .. } => "if statement",
        Stmt::While { .. } => "while loop",
        Stmt::For { .. } => "for loop",
        Stmt::Switch { .. } => "switch statement",
        Stmt::Break => "break",
        Stmt::Continue => "continue",
    }
}

} // verus!
