//! The dynamic `import("...")` specifiers of a program, in traversal order:
//! a module reachable only through a dynamic import is still part of the
//! module graph.

use vstd::prelude::*;
use crate::ast::expr::{ArrayItem, CallArg, Expr, ObjectItem, Prop};
use crate::ast::program::{Decl, ExportDecl, Method, Program, Stmt};

verus! {

/// The dynamic-import specifiers of an expression, in traversal order.
pub open spec fn dyn_expr(e: Expr) -> Seq<Seq<char>>
    decreases e, 1nat,
{
    match e {
        Expr::DynImport { specifier } => seq![specifier@],
        Expr::Member { base, .. } => dyn_expr(*base),
        Expr::Binary { left, right, .. } => dyn_expr(*left) + dyn_expr(*right),
        Expr::Unary { expr, .. } => dyn_expr(*expr),
        Expr::Call { callee, args } => dyn_expr(*callee) + dyn_args(args@),
        Expr::New { callee, args } => dyn_expr(*callee) + dyn_args(args@),
        Expr::Assign { target, value } => dyn_expr(*target) + dyn_expr(*value),
        Expr::Element(el) => dyn_exprs(el.children@) + dyn_props(el.props@),
        Expr::Ternary { cond, then, else_ } => dyn_expr(*cond) + dyn_expr(*then) + dyn_expr(*else_),
        Expr::Array(items) => dyn_items(items@),
        Expr::Object(items) => dyn_objects(items@),
        Expr::Template { exprs, .. } => dyn_exprs(exprs@),
        Expr::Update { target, .. } => dyn_expr(*target),
        Expr::CompoundAssign { target, value, .. } => dyn_expr(*target) + dyn_expr(*value),
        Expr::Arrow { body, .. } => dyn_expr(*body),
        Expr::Function { body, .. } => dyn_stmts(body@),
        Expr::Yield { value, .. } => match value {
            Some(v) => dyn_expr(*v),
            None => Seq::empty(),
        },
        Expr::Await { value, .. } => dyn_expr(*value),
        Expr::Block(stmts) => dyn_exprs(stmts@),
        Expr::Throw(v) => dyn_expr(*v),
        Expr::Return(v) => match v {
            Some(x) => dyn_expr(*x),
            None => Seq::empty(),
        },
        Expr::While { cond, body } => dyn_expr(*cond) + dyn_expr(*body),
        Expr::Try { block, catch, finally, .. } => dyn_exprs(block@) + (match catch {
            Some(c) => dyn_exprs(c@),
            None => Seq::empty(),
        }) + (match finally {
            Some(f) => dyn_exprs(f@),
            None => Seq::empty(),
        }),
        _ => Seq::empty(),
    }
}

/// The specifiers of a list of expressions.
pub open spec fn dyn_exprs(s: Seq<Expr>) -> Seq<Seq<char>>
    decreases s, 1nat,
{
    if s.len() == 0 { Seq::empty() } else { dyn_exprs(s.drop_last()) + dyn_expr(s.last()) }
}

/// The specifiers of call arguments.
pub open spec fn dyn_args(s: Seq<CallArg>) -> Seq<Seq<char>>
    decreases s, 1nat,
{
    if s.len() == 0 {
        Seq::empty()
    } else {
        dyn_args(s.drop_last()) + match s.last() {
            CallArg::Expr(x) => dyn_expr(x),
            CallArg::Spread(x) => dyn_expr(x),
        }
    }
}

/// The specifiers of array items.
pub open spec fn dyn_items(s: Seq<ArrayItem>) -> Seq<Seq<char>>
    decreases s, 1nat,
{
    if s.len() == 0 {
        Seq::empty()
    } else {
        dyn_items(s.drop_last()) + match s.last() {
            ArrayItem::Expr(x) => dyn_expr(x),
            ArrayItem::Spread(x) => dyn_expr(x),
        }
    }
}

/// The specifiers of object items.
pub open spec fn dyn_objects(s: Seq<ObjectItem>) -> Seq<Seq<char>>
    decreases s, 1nat,
{
    if s.len() == 0 {
        Seq::empty()
    } else {
        dyn_objects(s.drop_last()) + match s.last() {
            ObjectItem::Shorthand(_) => Seq::empty(),
            ObjectItem::Prop(_, v) => dyn_expr(v),
            ObjectItem::Spread(x) => dyn_expr(x),
        }
    }
}

/// The specifiers of element attribute values.
pub open spec fn dyn_props(s: Seq<Prop>) -> Seq<Seq<char>>
    decreases s, 1nat,
{
    if s.len() == 0 {
        Seq::empty()
    } else {
        dyn_props(s.drop_last()) + match s.last().value {
            Some(v) => dyn_expr(v),
            None => Seq::empty(),
        }
    }
}

/// The specifiers of a statement (a `switch` contributes its discriminant
/// and its cases' bodies).
pub open spec fn dyn_stmt(s: Stmt) -> Seq<Seq<char>>
    decreases s, 1nat,
{
    match s {
        Stmt::Let { value, .. } => dyn_expr(value),
        Stmt::Const { value, .. } => dyn_expr(value),
        Stmt::Destructure { value, .. } => dyn_expr(value),
        Stmt::Return(e) => dyn_expr(e),
        Stmt::Expr(e) => dyn_expr(e),
        Stmt::If { cond, then, else_ } => dyn_expr(cond) + dyn_stmts(then@) + match else_ {
            Some(b) => dyn_stmts(b@),
            None => Seq::empty(),
        },
        Stmt::While { cond, body } => dyn_expr(cond) + dyn_stmts(body@),
        Stmt::For { init, cond, update, body } => (match init {
            Some(i) => dyn_stmt(*i),
            None => Seq::empty(),
        }) + (match cond {
            Some(c) => dyn_expr(c),
            None => Seq::empty(),
        }) + (match update {
            Some(u) => dyn_expr(u),
            None => Seq::empty(),
        }) + dyn_stmts(body@),
        Stmt::Switch { disc, cases } => dyn_expr(disc) + dyn_cases(cases@),
        Stmt::Break => Seq::empty(),
        Stmt::Continue => Seq::empty(),
    }
}

/// The specifiers of a list of statements.
pub open spec fn dyn_stmts(s: Seq<Stmt>) -> Seq<Seq<char>>
    decreases s, 1nat,
{
    if s.len() == 0 { Seq::empty() } else { dyn_stmts(s.drop_last()) + dyn_stmt(s.last()) }
}

/// The specifiers of `switch` case bodies.
pub open spec fn dyn_cases(s: Seq<(Option<Expr>, Vec<Stmt>)>) -> Seq<Seq<char>>
    decreases s, 1nat,
{
    if s.len() == 0 { Seq::empty() } else { dyn_cases(s.drop_last()) + dyn_stmts(s.last().1@) }
}

/// The specifiers of class methods' bodies.
pub open spec fn dyn_methods(s: Seq<Method>) -> Seq<Seq<char>>
    decreases s.len(),
{
    if s.len() == 0 { Seq::empty() } else { dyn_methods(s.drop_last()) + dyn_stmts(s.last().body@) }
}

/// The specifiers of a declaration.
pub open spec fn dyn_decl(d: Decl) -> Seq<Seq<char>> {
    match d {
        Decl::Component(c) => dyn_stmts(c.body@),
        Decl::Class(c) => (match c.state {
            Some(s) => dyn_expr(s),
            None => Seq::empty(),
        }) + dyn_methods(c.methods@),
        Decl::GeneratorFn(g) => dyn_stmts(g.body@),
        Decl::FuncDecl(f) => dyn_stmts(f.body@),
        Decl::TopLevel { value, .. } => dyn_expr(value),
        Decl::ExportDecl(ExportDecl::Function(f)) => dyn_stmts(f.body@),
        Decl::ExportDecl(ExportDecl::Const { value, .. }) => dyn_expr(value),
        _ => Seq::empty(),
    }
}

/// The specifiers of a program's declarations.
pub open spec fn dyn_decls(s: Seq<Decl>) -> Seq<Seq<char>>
    decreases s.len(),
{
    if s.len() == 0 { Seq::empty() } else { dyn_decls(s.drop_last()) + dyn_decl(s.last()) }
}

/// The views of a list of strings.
pub open spec fn string_views(s: Seq<String>) -> Seq<Seq<char>> {
    s.map_values(|x: String| x@)
}

proof fn lemma_views_push(s: Seq<String>, x: String)
    ensures string_views(s.push(x)) == string_views(s).push(x@),
{
    assert(string_views(s.push(x)) =~= string_views(s).push(x@));
}

fn collect_exprs(es: &Vec<Expr>, out: &mut Vec<String>)
    ensures string_views(final(out)@) == string_views(old(out)@) + dyn_exprs(es@),
    decreases es@, 2nat,
{
    let ghost start = string_views(out@);
    let n = es.len();
    assert(es@.take(0) =~= Seq::<Expr>::empty());
    for i in 0..n
        invariant
            n == es@.len(),
            string_views(out@) == start + dyn_exprs(es@.take(i as int)),
    {
        assert(es@.take(i + 1).drop_last() =~= es@.take(i as int));
        assert(es@.take(i + 1).last() == es@[i as int]);
        assert(decreases_to!(es@ => es@[i as int]));
        collect_expr(&es[i], out);
        assert(string_views(out@) =~= start + dyn_exprs(es@.take(i + 1)));
    }
    assert(es@.take(n as int) =~= es@);
}

fn collect_stmts(ss: &Vec<Stmt>, out: &mut Vec<String>)
    ensures string_views(final(out)@) == string_views(old(out)@) + dyn_stmts(ss@),
    decreases ss@, 2nat,
{
    let ghost start = string_views(out@);
    let n = ss.len();
    assert(ss@.take(0) =~= Seq::<Stmt>::empty());
    for i in 0..n
        invariant
            n == ss@.len(),
            string_views(out@) == start + dyn_stmts(ss@.take(i as int)),
    {
        assert(ss@.take(i + 1).drop_last() =~= ss@.take(i as int));
        assert(ss@.take(i + 1).last() == ss@[i as int]);
        assert(decreases_to!(ss@ => ss@[i as int]));
        collect_stmt(&ss[i], out);
        assert(string_views(out@) =~= start + dyn_stmts(ss@.take(i + 1)));
    }
    assert(ss@.take(n as int) =~= ss@);
}

fn collect_args(e: &Expr, args: &Vec<CallArg>, out: &mut Vec<String>)
    requires
        (*e matches Expr::Call { args: a, .. } && a == *args)
            || (*e matches Expr::New { args: a, .. } && a == *args),
    ensures string_views(final(out)@) == string_views(old(out)@) + dyn_args(args@),
    decreases e, 0nat,
{
    let ghost start = string_views(out@);
    let n = args.len();
    assert(args@.take(0) =~= Seq::<CallArg>::empty());
    for i in 0..n
        invariant
            n == args@.len(),
            (*e matches Expr::Call { args: a, .. } && a == *args)
                || (*e matches Expr::New { args: a, .. } && a == *args),
            string_views(out@) == start + dyn_args(args@.take(i as int)),
    {
        assert(args@.take(i + 1).drop_last() =~= args@.take(i as int));
        assert(args@.take(i + 1).last() == args@[i as int]);
        assert(decreases_to!(*args => args@));
        assert(decreases_to!(args@ => args@[i as int]));
        match &args[i] {
            CallArg::Expr(x) => collect_expr(x, out),
            CallArg::Spread(x) => collect_expr(x, out),
        }
        assert(string_views(out@) =~= start + dyn_args(args@.take(i + 1)));
    }
    assert(args@.take(n as int) =~= args@);
}

#[verifier::spinoff_prover]
#[verifier::rlimit(100)]
fn collect_compound(e: &Expr, out: &mut Vec<String>)
    requires *e is Array || *e is Object || *e is Element,
    ensures string_views(final(out)@) == string_views(old(out)@) + dyn_expr(*e),
    decreases e, 0nat,
{
    let ghost start = string_views(out@);
    match e {
        Expr::Array(items) => {
            let n = items.len();
            assert(items@.take(0) =~= Seq::<ArrayItem>::empty());
            for i in 0..n
                invariant
                    n == items@.len(),
                    *e == Expr::Array(*items),
                    string_views(out@) == start + dyn_items(items@.take(i as int)),
            {
                assert(items@.take(i + 1).drop_last() =~= items@.take(i as int));
                assert(items@.take(i + 1).last() == items@[i as int]);
                assert(decreases_to!(*e => e->Array_0));
                assert(decreases_to!(*items => items@));
                assert(decreases_to!(items@ => items@[i as int]));
                match &items[i] {
                    ArrayItem::Expr(x) => collect_expr(x, out),
                    ArrayItem::Spread(x) => collect_expr(x, out),
                }
                assert(string_views(out@) =~= start + dyn_items(items@.take(i + 1)));
            }
            assert(items@.take(n as int) =~= items@);
        },
        Expr::Object(items) => {
            let n = items.len();
            assert(items@.take(0) =~= Seq::<ObjectItem>::empty());
            for i in 0..n
                invariant
                    n == items@.len(),
                    *e == Expr::Object(*items),
                    string_views(out@) == start + dyn_objects(items@.take(i as int)),
            {
                assert(items@.take(i + 1).drop_last() =~= items@.take(i as int));
                assert(items@.take(i + 1).last() == items@[i as int]);
                assert(decreases_to!(*e => e->Object_0));
                assert(decreases_to!(*items => items@));
                assert(decreases_to!(items@ => items@[i as int]));
                match &items[i] {
                    ObjectItem::Shorthand(_) => {},
                    ObjectItem::Prop(_, v) => collect_expr(v, out),
                    ObjectItem::Spread(x) => collect_expr(x, out),
                }
                assert(string_views(out@) =~= start + dyn_objects(items@.take(i + 1)));
            }
            assert(items@.take(n as int) =~= items@);
        },
        Expr::Element(el) => {
            assert(decreases_to!(*e => e->Element_0));
            assert(decreases_to!(*el => el.children));
            assert(decreases_to!(el.children => el.children@));
            collect_exprs(&el.children, out);
            let ghost mid = string_views(out@);
            let n = el.props.len();
            assert(el.props@.take(0) =~= Seq::<Prop>::empty());
            for i in 0..n
                invariant
                    n == el.props@.len(),
                    *e == Expr::Element(*el),
                    string_views(out@) == mid + dyn_props(el.props@.take(i as int)),
            {
                assert(el.props@.take(i + 1).drop_last() =~= el.props@.take(i as int));
                assert(el.props@.take(i + 1).last() == el.props@[i as int]);
                assert(decreases_to!(*e => e->Element_0));
                assert(decreases_to!(*el => el.props));
                assert(decreases_to!(el.props => el.props@));
                assert(decreases_to!(el.props@ => el.props@[i as int]));
                match &el.props[i].value {
                    Some(v) => {
                        assert(decreases_to!(el.props@[i as int] => el.props@[i as int].value));
                        collect_expr(v, out);
                    },
                    None => {},
                }
                assert(string_views(out@) =~= mid + dyn_props(el.props@.take(i + 1)));
            }
            assert(el.props@.take(n as int) =~= el.props@);
        },
        _ => {},
    }
    assert(string_views(out@) =~= start + dyn_expr(*e));
}

#[verifier::spinoff_prover]
#[verifier::rlimit(100)]
fn collect_expr(e: &Expr, out: &mut Vec<String>)
    ensures string_views(final(out)@) == string_views(old(out)@) + dyn_expr(*e),
    decreases e, 1nat,
{
    let ghost start = string_views(out@);
    match e {
        Expr::DynImport { specifier } => {
            let ghost before = out@;
            out.push(specifier.clone());
            proof { lemma_views_push(before, *specifier); }
        },
        Expr::Member { base, .. } => collect_expr(base, out),
        Expr::Binary { left, right, .. } => {
            collect_expr(left, out);
            collect_expr(right, out);
        },
        Expr::Unary { expr, .. } => collect_expr(expr, out),
        Expr::Call { callee, args } => {
            collect_expr(callee, out);
            collect_args(e, args, out);
        },
        Expr::New { callee, args } => {
            collect_expr(callee, out);
            collect_args(e, args, out);
        },
        Expr::Assign { target, value } => {
            collect_expr(target, out);
            collect_expr(value, out);
        },
        Expr::Element(_) => collect_compound(e, out),
        Expr::Ternary { cond, then, else_ } => {
            collect_expr(cond, out);
            collect_expr(then, out);
            collect_expr(else_, out);
        },
        Expr::Array(_) => collect_compound(e, out),
        Expr::Object(_) => collect_compound(e, out),
        Expr::Template { exprs, .. } => {
            assert(decreases_to!(*e => e->Template_exprs));
            assert(decreases_to!(*exprs => exprs@));
            collect_exprs(exprs, out);
        },
        Expr::Update { target, .. } => collect_expr(target, out),
        Expr::CompoundAssign { target, value, .. } => {
            collect_expr(target, out);
            collect_expr(value, out);
        },
        Expr::Arrow { body, .. } => collect_expr(body, out),
        Expr::Function { body, .. } => {
            assert(decreases_to!(*e => e->Function_body));
            assert(decreases_to!(*body => body@));
            collect_stmts(body, out);
        },
        Expr::Yield { value, .. } => match value {
            Some(v) => collect_expr(v, out),
            None => {},
        },
        Expr::Await { value, .. } => collect_expr(value, out),
        Expr::Block(stmts) => {
            assert(decreases_to!(*e => e->Block_0));
            assert(decreases_to!(*stmts => stmts@));
            collect_exprs(stmts, out);
        },
        Expr::Throw(v) => collect_expr(v, out),
        Expr::Return(v) => match v {
            Some(x) => collect_expr(x, out),
            None => {},
        },
        Expr::While { cond, body } => {
            collect_expr(cond, out);
            collect_expr(body, out);
        },
        Expr::Try { block, catch, finally, .. } => {
            assert(decreases_to!(*e => e->block));
            assert(decreases_to!(*block => block@));
            collect_exprs(block, out);
            match catch {
                Some(c) => {
                    assert(decreases_to!(*e => e->catch));
                    assert(decreases_to!(*c => c@));
                    collect_exprs(c, out);
                },
                None => {},
            }
            match finally {
                Some(f) => {
                    assert(decreases_to!(*e => e->finally));
                    assert(decreases_to!(*f => f@));
                    collect_exprs(f, out);
                },
                None => {},
            }
        },
        _ => {},
    }
    assert(string_views(out@) =~= start + dyn_expr(*e));
}

#[verifier::spinoff_prover]
#[verifier::rlimit(100)]
fn collect_stmt(s: &Stmt, out: &mut Vec<String>)
    ensures string_views(final(out)@) == string_views(old(out)@) + dyn_stmt(*s),
    decreases s, 1nat,
{
    let ghost start = string_views(out@);
    match s {
        Stmt::Let { value, .. } => collect_expr(value, out),
        Stmt::Const { value, .. } => collect_expr(value, out),
        Stmt::Destructure { value, .. } => collect_expr(value, out),
        Stmt::Return(e) => collect_expr(e, out),
        Stmt::Expr(e) => collect_expr(e, out),
        Stmt::If { cond, then, else_ } => {
            collect_expr(cond, out);
            assert(decreases_to!(*s => s->then));
            assert(decreases_to!(*then => then@));
            collect_stmts(then, out);
            match else_ {
                Some(b) => {
                    assert(decreases_to!(*s => s->else_));
                    assert(decreases_to!(*b => b@));
                    collect_stmts(b, out);
                },
                None => {},
            }
        },
        Stmt::While { cond, body } => {
            collect_expr(cond, out);
            assert(decreases_to!(*s => s->While_body));
            assert(decreases_to!(*body => body@));
            collect_stmts(body, out);
        },
        Stmt::For { init, cond, update, body } => {
            match init {
                Some(i) => collect_stmt(i, out),
                None => {},
            }
            match cond {
                Some(c) => collect_expr(c, out),
                None => {},
            }
            match update {
                Some(u) => collect_expr(u, out),
                None => {},
            }
            assert(decreases_to!(*s => s->For_body));
            assert(decreases_to!(*body => body@));
            collect_stmts(body, out);
        },
        Stmt::Switch { disc, cases } => {
            collect_expr(disc, out);
            let ghost mid = string_views(out@);
            let n = cases.len();
            assert(cases@.take(0) =~= Seq::<(Option<Expr>, Vec<Stmt>)>::empty());
            for i in 0..n
                invariant
                    n == cases@.len(),
                    *s == (Stmt::Switch { disc: *disc, cases: *cases }),
                    string_views(out@) == mid + dyn_cases(cases@.take(i as int)),
            {
                assert(cases@.take(i + 1).drop_last() =~= cases@.take(i as int));
                assert(cases@.take(i + 1).last() == cases@[i as int]);
                assert(decreases_to!(*s => s->cases));
                assert(decreases_to!(*cases => cases@));
                assert(decreases_to!(cases@ => cases@[i as int]));
                assert(decreases_to!(cases@[i as int] => cases@[i as int].1));
                assert(decreases_to!(cases@[i as int].1 => cases@[i as int].1@));
                collect_stmts(&cases[i].1, out);
                assert(string_views(out@) =~= mid + dyn_cases(cases@.take(i + 1)));
            }
            assert(cases@.take(n as int) =~= cases@);
        },
        Stmt::Break => {},
        Stmt::Continue => {},
    }
    assert(string_views(out@) =~= start + dyn_stmt(*s));
}

// ---------------------------------------------------------------------------
// Where a dynamic import occurs.

/// The dynamic import of `sp` occurs in `e`, in a position the program
/// evaluates: `e` is that import, or it occurs in an operand, the callee or
/// an argument, an array or object item, an element's child or attribute
/// value, an interpolation, a closure's or function's body, a block, or any
/// other sub-expression.
pub open spec fn holds_dyn(e: Expr, sp: Seq<char>) -> bool
    decreases e, 1nat,
{
    match e {
        Expr::DynImport { specifier } => specifier@ == sp,
        Expr::Member { base, .. } => holds_dyn(*base, sp),
        Expr::Binary { left, right, .. } => holds_dyn(*left, sp) || holds_dyn(*right, sp),
        Expr::Unary { expr, .. } => holds_dyn(*expr, sp),
        Expr::Call { callee, args } => holds_dyn(*callee, sp) || any_arg_dyn(args@, sp),
        Expr::New { callee, args } => holds_dyn(*callee, sp) || any_arg_dyn(args@, sp),
        Expr::Assign { target, value } => holds_dyn(*target, sp) || holds_dyn(*value, sp),
        Expr::Element(el) => any_expr_dyn(el.children@, sp) || any_prop_dyn(el.props@, sp),
        Expr::Ternary { cond, then, else_ } => holds_dyn(*cond, sp) || holds_dyn(*then, sp) || holds_dyn(*else_, sp),
        Expr::Array(items) => any_item_dyn(items@, sp),
        Expr::Object(items) => any_object_dyn(items@, sp),
        Expr::Template { exprs, .. } => any_expr_dyn(exprs@, sp),
        Expr::Update { target, .. } => holds_dyn(*target, sp),
        Expr::CompoundAssign { target, value, .. } => holds_dyn(*target, sp) || holds_dyn(*value, sp),
        Expr::Arrow { body, .. } => holds_dyn(*body, sp),
        Expr::Function { body, .. } => any_stmt_dyn(body@, sp),
        Expr::Yield { value, .. } => value matches Some(v) && holds_dyn(*v, sp),
        Expr::Await { value, .. } => holds_dyn(*value, sp),
        Expr::Block(stmts) => any_expr_dyn(stmts@, sp),
        Expr::Throw(v) => holds_dyn(*v, sp),
        Expr::Return(v) => v matches Some(x) && holds_dyn(*x, sp),
        Expr::While { cond, body } => holds_dyn(*cond, sp) || holds_dyn(*body, sp),
        Expr::Try { block, catch, finally, .. } => any_expr_dyn(block@, sp)
            || (catch matches Some(c) && any_expr_dyn(c@, sp)) || (finally matches Some(f) && any_expr_dyn(f@, sp)),
        _ => false,
    }
}

/// The import of `sp` occurs in one of the expressions.
pub open spec fn any_expr_dyn(s: Seq<Expr>, sp: Seq<char>) -> bool
    decreases s, 1nat,
{
    s.len() > 0 && (any_expr_dyn(s.drop_last(), sp) || holds_dyn(s.last(), sp))
}

/// The import of `sp` occurs in one of the call arguments.
pub open spec fn any_arg_dyn(s: Seq<CallArg>, sp: Seq<char>) -> bool
    decreases s, 1nat,
{
    s.len() > 0 && (any_arg_dyn(s.drop_last(), sp) || match s.last() {
        CallArg::Expr(x) => holds_dyn(x, sp),
        CallArg::Spread(x) => holds_dyn(x, sp),
    })
}

/// The import of `sp` occurs in one of the array items.
pub open spec fn any_item_dyn(s: Seq<ArrayItem>, sp: Seq<char>) -> bool
    decreases s, 1nat,
{
    s.len() > 0 && (any_item_dyn(s.drop_last(), sp) || match s.last() {
        ArrayItem::Expr(x) => holds_dyn(x, sp),
        ArrayItem::Spread(x) => holds_dyn(x, sp),
    })
}

/// The import of `sp` occurs in one of the object items' values.
pub open spec fn any_object_dyn(s: Seq<ObjectItem>, sp: Seq<char>) -> bool
    decreases s, 1nat,
{
    s.len() > 0 && (any_object_dyn(s.drop_last(), sp) || match s.last() {
        ObjectItem::Shorthand(_) => false,
        ObjectItem::Prop(_, v) => holds_dyn(v, sp),
        ObjectItem::Spread(x) => holds_dyn(x, sp),
    })
}

/// The import of `sp` occurs in one of the attribute values.
pub open spec fn any_prop_dyn(s: Seq<Prop>, sp: Seq<char>) -> bool
    decreases s, 1nat,
{
    s.len() > 0 && (any_prop_dyn(s.drop_last(), sp) || (s.last().value matches Some(v) && holds_dyn(v, sp)))
}

/// The import of `sp` occurs in the statement: in a value it binds,
/// returns or evaluates, a condition, a loop's parts, a `switch`'s
/// discriminant, or a nested statement.
pub open spec fn stmt_holds_dyn(st: Stmt, sp: Seq<char>) -> bool
    decreases st, 1nat,
{
    match st {
        Stmt::Let { value, .. } => holds_dyn(value, sp),
        Stmt::Const { value, .. } => holds_dyn(value, sp),
        Stmt::Destructure { value, .. } => holds_dyn(value, sp),
        Stmt::Return(e) => holds_dyn(e, sp),
        Stmt::Expr(e) => holds_dyn(e, sp),
        Stmt::If { cond, then, else_ } => holds_dyn(cond, sp) || any_stmt_dyn(then@, sp)
            || (else_ matches Some(b) && any_stmt_dyn(b@, sp)),
        Stmt::While { cond, body } => holds_dyn(cond, sp) || any_stmt_dyn(body@, sp),
        Stmt::For { init, cond, update, body } => (init matches Some(i) && stmt_holds_dyn(*i, sp))
            || (cond matches Some(c) && holds_dyn(c, sp)) || (update matches Some(u) && holds_dyn(u, sp))
            || any_stmt_dyn(body@, sp),
        Stmt::Switch { disc, cases } => holds_dyn(disc, sp) || any_case_dyn(cases@, sp),
        Stmt::Break => false,
        Stmt::Continue => false,
    }
}

/// The import of `sp` occurs in one of the statements.
pub open spec fn any_stmt_dyn(s: Seq<Stmt>, sp: Seq<char>) -> bool
    decreases s, 1nat,
{
    s.len() > 0 && (any_stmt_dyn(s.drop_last(), sp) || stmt_holds_dyn(s.last(), sp))
}

/// The import of `sp` occurs in one of the case bodies.
pub open spec fn any_case_dyn(s: Seq<(Option<Expr>, Vec<Stmt>)>, sp: Seq<char>) -> bool
    decreases s, 1nat,
{
    s.len() > 0 && (any_case_dyn(s.drop_last(), sp) || any_stmt_dyn(s.last().1@, sp))
}

/// The import of `sp` occurs in one of the method bodies.
pub open spec fn any_method_dyn(s: Seq<Method>, sp: Seq<char>) -> bool
    decreases s.len(),
{
    s.len() > 0 && (any_method_dyn(s.drop_last(), sp) || any_stmt_dyn(s.last().body@, sp))
}

/// The import of `sp` occurs in the declaration's bodies or values.
pub open spec fn decl_holds_dyn(d: Decl, sp: Seq<char>) -> bool {
    match d {
        Decl::Component(c) => any_stmt_dyn(c.body@, sp),
        Decl::Class(c) => (c.state matches Some(st) && holds_dyn(st, sp)) || any_method_dyn(c.methods@, sp),
        Decl::GeneratorFn(g) => any_stmt_dyn(g.body@, sp),
        Decl::FuncDecl(f) => any_stmt_dyn(f.body@, sp),
        Decl::TopLevel { value, .. } => holds_dyn(value, sp),
        Decl::ExportDecl(ExportDecl::Function(f)) => any_stmt_dyn(f.body@, sp),
        Decl::ExportDecl(ExportDecl::Const { value, .. }) => holds_dyn(value, sp),
        _ => false,
    }
}

/// The import of `sp` occurs in one of the declarations.
pub open spec fn any_decl_dyn(s: Seq<Decl>, sp: Seq<char>) -> bool
    decreases s.len(),
{
    s.len() > 0 && (any_decl_dyn(s.drop_last(), sp) || decl_holds_dyn(s.last(), sp))
}

proof fn lemma_in_left(a: Seq<Seq<char>>, b: Seq<Seq<char>>, x: Seq<char>)
    requires a.contains(x),
    ensures (a + b).contains(x),
{
    let i = choose|i: int| 0 <= i < a.len() && a[i] == x;
    assert((a + b)[i] == x);
}

proof fn lemma_in_right(a: Seq<Seq<char>>, b: Seq<Seq<char>>, x: Seq<char>)
    requires b.contains(x),
    ensures (a + b).contains(x),
{
    let i = choose|i: int| 0 <= i < b.len() && b[i] == x;
    assert((a + b)[a.len() + i] == x);
}

/// Where the import of `sp` occurs in an expression, the expression's
/// specifiers list it.
pub proof fn lemma_expr_listed(e: Expr, sp: Seq<char>)
    requires holds_dyn(e, sp),
    ensures dyn_expr(e).contains(sp),
    decreases e, 1nat,
{
    match e {
        Expr::DynImport { specifier } => {
            assert(dyn_expr(e)[0] == sp);
        },
        Expr::Member { base, .. } => lemma_expr_listed(*base, sp),
        Expr::Binary { left, right, .. } => {
            if holds_dyn(*left, sp) {
                lemma_expr_listed(*left, sp);
                lemma_in_left(dyn_expr(*left), dyn_expr(*right), sp);
            } else {
                lemma_expr_listed(*right, sp);
                lemma_in_right(dyn_expr(*left), dyn_expr(*right), sp);
            }
        },
        Expr::Unary { expr, .. } => lemma_expr_listed(*expr, sp),
        Expr::Call { callee, args } => {
            if holds_dyn(*callee, sp) {
                lemma_expr_listed(*callee, sp);
                lemma_in_left(dyn_expr(*callee), dyn_args(args@), sp);
            } else {
                lemma_args_listed(args@, sp);
                lemma_in_right(dyn_expr(*callee), dyn_args(args@), sp);
            }
        },
        Expr::New { callee, args } => {
            if holds_dyn(*callee, sp) {
                lemma_expr_listed(*callee, sp);
                lemma_in_left(dyn_expr(*callee), dyn_args(args@), sp);
            } else {
                lemma_args_listed(args@, sp);
                lemma_in_right(dyn_expr(*callee), dyn_args(args@), sp);
            }
        },
        Expr::Assign { target, value } => {
            if holds_dyn(*target, sp) {
                lemma_expr_listed(*target, sp);
                lemma_in_left(dyn_expr(*target), dyn_expr(*value), sp);
            } else {
                lemma_expr_listed(*value, sp);
                lemma_in_right(dyn_expr(*target), dyn_expr(*value), sp);
            }
        },
        Expr::Element(el) => {
            if any_expr_dyn(el.children@, sp) {
                lemma_exprs_listed(el.children@, sp);
                lemma_in_left(dyn_exprs(el.children@), dyn_props(el.props@), sp);
            } else {
                lemma_props_listed(el.props@, sp);
                lemma_in_right(dyn_exprs(el.children@), dyn_props(el.props@), sp);
            }
        },
        Expr::Ternary { cond, then, else_ } => {
            let a = dyn_expr(*cond);
            let b = dyn_expr(*then);
            let c = dyn_expr(*else_);
            if holds_dyn(*cond, sp) {
                lemma_expr_listed(*cond, sp);
                lemma_in_left(a, b, sp);
                lemma_in_left(a + b, c, sp);
            } else if holds_dyn(*then, sp) {
                lemma_expr_listed(*then, sp);
                lemma_in_right(a, b, sp);
                lemma_in_left(a + b, c, sp);
            } else {
                lemma_expr_listed(*else_, sp);
                lemma_in_right(a + b, c, sp);
            }
        },
        Expr::Array(items) => lemma_items_listed(items@, sp),
        Expr::Object(items) => lemma_objects_listed(items@, sp),
        Expr::Template { exprs, .. } => lemma_exprs_listed(exprs@, sp),
        Expr::Update { target, .. } => lemma_expr_listed(*target, sp),
        Expr::CompoundAssign { target, value, .. } => {
            if holds_dyn(*target, sp) {
                lemma_expr_listed(*target, sp);
                lemma_in_left(dyn_expr(*target), dyn_expr(*value), sp);
            } else {
                lemma_expr_listed(*value, sp);
                lemma_in_right(dyn_expr(*target), dyn_expr(*value), sp);
            }
        },
        Expr::Arrow { body, .. } => lemma_expr_listed(*body, sp),
        Expr::Function { body, .. } => lemma_stmts_listed(body@, sp),
        Expr::Yield { value, .. } => {
            if let Some(v) = value {
                lemma_expr_listed(*v, sp);
            }
        },
        Expr::Await { value, .. } => lemma_expr_listed(*value, sp),
        Expr::Block(stmts) => lemma_exprs_listed(stmts@, sp),
        Expr::Throw(v) => lemma_expr_listed(*v, sp),
        Expr::Return(v) => {
            if let Some(x) = v {
                lemma_expr_listed(*x, sp);
            }
        },
        Expr::While { cond, body } => {
            if holds_dyn(*cond, sp) {
                lemma_expr_listed(*cond, sp);
                lemma_in_left(dyn_expr(*cond), dyn_expr(*body), sp);
            } else {
                lemma_expr_listed(*body, sp);
                lemma_in_right(dyn_expr(*cond), dyn_expr(*body), sp);
            }
        },
        Expr::Try { block, catch, finally, .. } => {
            let a = dyn_exprs(block@);
            let b = match catch {
                Some(c) => dyn_exprs(c@),
                None => Seq::empty(),
            };
            let c = match finally {
                Some(f) => dyn_exprs(f@),
                None => Seq::empty(),
            };
            if any_expr_dyn(block@, sp) {
                lemma_exprs_listed(block@, sp);
                lemma_in_left(a, b, sp);
                lemma_in_left(a + b, c, sp);
            } else if catch matches Some(cc) && any_expr_dyn(cc@, sp) {
                lemma_exprs_listed(catch->Some_0@, sp);
                lemma_in_right(a, b, sp);
                lemma_in_left(a + b, c, sp);
            } else {
                lemma_exprs_listed(finally->Some_0@, sp);
                lemma_in_right(a + b, c, sp);
            }
        },
        _ => {},
    }
}

/// The specifiers of a list of expressions list every import in them.
pub proof fn lemma_exprs_listed(s: Seq<Expr>, sp: Seq<char>)
    requires any_expr_dyn(s, sp),
    ensures dyn_exprs(s).contains(sp),
    decreases s, 1nat,
{
    if any_expr_dyn(s.drop_last(), sp) {
        lemma_exprs_listed(s.drop_last(), sp);
        lemma_in_left(dyn_exprs(s.drop_last()), dyn_expr(s.last()), sp);
    } else {
        lemma_expr_listed(s.last(), sp);
        lemma_in_right(dyn_exprs(s.drop_last()), dyn_expr(s.last()), sp);
    }
}

/// The specifiers of call arguments list every import in them.
pub proof fn lemma_args_listed(s: Seq<CallArg>, sp: Seq<char>)
    requires any_arg_dyn(s, sp),
    ensures dyn_args(s).contains(sp),
    decreases s, 1nat,
{
    let last = match s.last() {
        CallArg::Expr(x) => dyn_expr(x),
        CallArg::Spread(x) => dyn_expr(x),
    };
    if any_arg_dyn(s.drop_last(), sp) {
        lemma_args_listed(s.drop_last(), sp);
        lemma_in_left(dyn_args(s.drop_last()), last, sp);
    } else {
        match s.last() {
            CallArg::Expr(x) => lemma_expr_listed(x, sp),
            CallArg::Spread(x) => lemma_expr_listed(x, sp),
        }
        lemma_in_right(dyn_args(s.drop_last()), last, sp);
    }
}

/// The specifiers of array items list every import in them.
pub proof fn lemma_items_listed(s: Seq<ArrayItem>, sp: Seq<char>)
    requires any_item_dyn(s, sp),
    ensures dyn_items(s).contains(sp),
    decreases s, 1nat,
{
    let last = match s.last() {
        ArrayItem::Expr(x) => dyn_expr(x),
        ArrayItem::Spread(x) => dyn_expr(x),
    };
    if any_item_dyn(s.drop_last(), sp) {
        lemma_items_listed(s.drop_last(), sp);
        lemma_in_left(dyn_items(s.drop_last()), last, sp);
    } else {
        match s.last() {
            ArrayItem::Expr(x) => lemma_expr_listed(x, sp),
            ArrayItem::Spread(x) => lemma_expr_listed(x, sp),
        }
        lemma_in_right(dyn_items(s.drop_last()), last, sp);
    }
}

/// The specifiers of object items list every import in them.
pub proof fn lemma_objects_listed(s: Seq<ObjectItem>, sp: Seq<char>)
    requires any_object_dyn(s, sp),
    ensures dyn_objects(s).contains(sp),
    decreases s, 1nat,
{
    let last = match s.last() {
        ObjectItem::Shorthand(_) => Seq::empty(),
        ObjectItem::Prop(_, v) => dyn_expr(v),
        ObjectItem::Spread(x) => dyn_expr(x),
    };
    if any_object_dyn(s.drop_last(), sp) {
        lemma_objects_listed(s.drop_last(), sp);
        lemma_in_left(dyn_objects(s.drop_last()), last, sp);
    } else {
        match s.last() {
            ObjectItem::Shorthand(_) => {},
            ObjectItem::Prop(_, v) => lemma_expr_listed(v, sp),
            ObjectItem::Spread(x) => lemma_expr_listed(x, sp),
        }
        lemma_in_right(dyn_objects(s.drop_last()), last, sp);
    }
}

/// The specifiers of attribute values list every import in them.
pub proof fn lemma_props_listed(s: Seq<Prop>, sp: Seq<char>)
    requires any_prop_dyn(s, sp),
    ensures dyn_props(s).contains(sp),
    decreases s, 1nat,
{
    let last = match s.last().value {
        Some(v) => dyn_expr(v),
        None => Seq::empty(),
    };
    if any_prop_dyn(s.drop_last(), sp) {
        lemma_props_listed(s.drop_last(), sp);
        lemma_in_left(dyn_props(s.drop_last()), last, sp);
    } else {
        lemma_expr_listed(s.last().value->Some_0, sp);
        lemma_in_right(dyn_props(s.drop_last()), last, sp);
    }
}

/// The specifiers of a statement list every import in it.
pub proof fn lemma_stmt_listed(st: Stmt, sp: Seq<char>)
    requires stmt_holds_dyn(st, sp),
    ensures dyn_stmt(st).contains(sp),
    decreases st, 1nat,
{
    match st {
        Stmt::Let { value, .. } => lemma_expr_listed(value, sp),
        Stmt::Const { value, .. } => lemma_expr_listed(value, sp),
        Stmt::Destructure { value, .. } => lemma_expr_listed(value, sp),
        Stmt::Return(e) => lemma_expr_listed(e, sp),
        Stmt::Expr(e) => lemma_expr_listed(e, sp),
        Stmt::If { cond, then, else_ } => {
            let a = dyn_expr(cond);
            let b = dyn_stmts(then@);
            let c = match else_ {
                Some(x) => dyn_stmts(x@),
                None => Seq::empty(),
            };
            if holds_dyn(cond, sp) {
                lemma_expr_listed(cond, sp);
                lemma_in_left(a, b, sp);
                lemma_in_left(a + b, c, sp);
            } else if any_stmt_dyn(then@, sp) {
                lemma_stmts_listed(then@, sp);
                lemma_in_right(a, b, sp);
                lemma_in_left(a + b, c, sp);
            } else {
                lemma_stmts_listed(else_->Some_0@, sp);
                lemma_in_right(a + b, c, sp);
            }
        },
        Stmt::While { cond, body } => {
            if holds_dyn(cond, sp) {
                lemma_expr_listed(cond, sp);
                lemma_in_left(dyn_expr(cond), dyn_stmts(body@), sp);
            } else {
                lemma_stmts_listed(body@, sp);
                lemma_in_right(dyn_expr(cond), dyn_stmts(body@), sp);
            }
        },
        Stmt::For { init, cond, update, body } => {
            let a = match init {
                Some(i) => dyn_stmt(*i),
                None => Seq::empty(),
            };
            let b = match cond {
                Some(c) => dyn_expr(c),
                None => Seq::empty(),
            };
            let c = match update {
                Some(u) => dyn_expr(u),
                None => Seq::empty(),
            };
            let d = dyn_stmts(body@);
            if init matches Some(i) && stmt_holds_dyn(*i, sp) {
                lemma_stmt_listed(*init->Some_0, sp);
                lemma_in_left(a, b, sp);
                lemma_in_left(a + b, c, sp);
                lemma_in_left(a + b + c, d, sp);
            } else if cond matches Some(x) && holds_dyn(x, sp) {
                lemma_expr_listed(cond->Some_0, sp);
                lemma_in_right(a, b, sp);
                lemma_in_left(a + b, c, sp);
                lemma_in_left(a + b + c, d, sp);
            } else if update matches Some(u) && holds_dyn(u, sp) {
                lemma_expr_listed(update->Some_0, sp);
                lemma_in_right(a + b, c, sp);
                lemma_in_left(a + b + c, d, sp);
            } else {
                lemma_stmts_listed(body@, sp);
                lemma_in_right(a + b + c, d, sp);
            }
        },
        Stmt::Switch { disc, cases } => {
            if holds_dyn(disc, sp) {
                lemma_expr_listed(disc, sp);
                lemma_in_left(dyn_expr(disc), dyn_cases(cases@), sp);
            } else {
                lemma_cases_listed(cases@, sp);
                lemma_in_right(dyn_expr(disc), dyn_cases(cases@), sp);
            }
        },
        Stmt::Break => {},
        Stmt::Continue => {},
    }
}

/// The specifiers of a list of statements list every import in them.
pub proof fn lemma_stmts_listed(s: Seq<Stmt>, sp: Seq<char>)
    requires any_stmt_dyn(s, sp),
    ensures dyn_stmts(s).contains(sp),
    decreases s, 1nat,
{
    if any_stmt_dyn(s.drop_last(), sp) {
        lemma_stmts_listed(s.drop_last(), sp);
        lemma_in_left(dyn_stmts(s.drop_last()), dyn_stmt(s.last()), sp);
    } else {
        lemma_stmt_listed(s.last(), sp);
        lemma_in_right(dyn_stmts(s.drop_last()), dyn_stmt(s.last()), sp);
    }
}

/// The specifiers of case bodies list every import in them.
pub proof fn lemma_cases_listed(s: Seq<(Option<Expr>, Vec<Stmt>)>, sp: Seq<char>)
    requires any_case_dyn(s, sp),
    ensures dyn_cases(s).contains(sp),
    decreases s, 1nat,
{
    if any_case_dyn(s.drop_last(), sp) {
        lemma_cases_listed(s.drop_last(), sp);
        lemma_in_left(dyn_cases(s.drop_last()), dyn_stmts(s.last().1@), sp);
    } else {
        lemma_stmts_listed(s.last().1@, sp);
        lemma_in_right(dyn_cases(s.drop_last()), dyn_stmts(s.last().1@), sp);
    }
}

proof fn lemma_methods_listed(s: Seq<Method>, sp: Seq<char>)
    requires any_method_dyn(s, sp),
    ensures dyn_methods(s).contains(sp),
    decreases s.len(),
{
    if any_method_dyn(s.drop_last(), sp) {
        lemma_methods_listed(s.drop_last(), sp);
        lemma_in_left(dyn_methods(s.drop_last()), dyn_stmts(s.last().body@), sp);
    } else {
        lemma_stmts_listed(s.last().body@, sp);
        lemma_in_right(dyn_methods(s.drop_last()), dyn_stmts(s.last().body@), sp);
    }
}

proof fn lemma_decl_listed(d: Decl, sp: Seq<char>)
    requires decl_holds_dyn(d, sp),
    ensures dyn_decl(d).contains(sp),
{
    match d {
        Decl::Component(c) => lemma_stmts_listed(c.body@, sp),
        Decl::Class(c) => {
            let a = match c.state {
                Some(st) => dyn_expr(st),
                None => Seq::empty(),
            };
            if c.state matches Some(st) && holds_dyn(st, sp) {
                lemma_expr_listed(c.state->Some_0, sp);
                lemma_in_left(a, dyn_methods(c.methods@), sp);
            } else {
                lemma_methods_listed(c.methods@, sp);
                lemma_in_right(a, dyn_methods(c.methods@), sp);
            }
        },
        Decl::GeneratorFn(g) => lemma_stmts_listed(g.body@, sp),
        Decl::FuncDecl(f) => lemma_stmts_listed(f.body@, sp),
        Decl::TopLevel { value, .. } => lemma_expr_listed(value, sp),
        Decl::ExportDecl(ExportDecl::Function(f)) => lemma_stmts_listed(f.body@, sp),
        Decl::ExportDecl(ExportDecl::Const { value, .. }) => lemma_expr_listed(value, sp),
        _ => {},
    }
}

/// Every dynamic import occurring in a program, wherever it stands (inside
/// a closure's body, a branch, an element's child, ...), is among the
/// program's dynamic-import specifiers.
pub proof fn law_every_dynamic_import_is_listed(decls: Seq<Decl>, sp: Seq<char>)
    requires any_decl_dyn(decls, sp),
    ensures dyn_decls(decls).contains(sp),
    decreases decls.len(),
{
    if any_decl_dyn(decls.drop_last(), sp) {
        law_every_dynamic_import_is_listed(decls.drop_last(), sp);
        lemma_in_left(dyn_decls(decls.drop_last()), dyn_decl(decls.last()), sp);
    } else {
        lemma_decl_listed(decls.last(), sp);
        lemma_in_right(dyn_decls(decls.drop_last()), dyn_decl(decls.last()), sp);
    }
}

/// Every dynamic-import specifier of a program, in traversal order: each
/// declaration's statements and expressions, depth first, left to right.
pub fn dyn_import_specifiers(program: &Program) -> (r: Vec<String>)
    ensures
        string_views(r@) == dyn_decls(program.decls@),
        forall|sp: Seq<char>| #[trigger] any_decl_dyn(program.decls@, sp) ==> string_views(r@).contains(sp),
{
    let mut out: Vec<String> = Vec::new();
    let n = program.decls.len();
    assert(program.decls@.take(0) =~= Seq::<Decl>::empty());
    assert(string_views(out@) =~= Seq::<Seq<char>>::empty());
    for i in 0..n
        invariant
            n == program.decls@.len(),
            string_views(out@) == dyn_decls(program.decls@.take(i as int)),
    {
        let ghost before = string_views(out@);
        assert(program.decls@.take(i + 1).drop_last() =~= program.decls@.take(i as int));
        assert(program.decls@.take(i + 1).last() == program.decls@[i as int]);
        match &program.decls[i] {
            Decl::Component(c) => collect_stmts(&c.body, &mut out),
            Decl::Class(c) => {
                match &c.state {
                    Some(st) => collect_expr(st, &mut out),
                    None => {},
                }
                let ghost mid = string_views(out@);
                let k = c.methods.len();
                assert(c.methods@.take(0) =~= Seq::<Method>::empty());
                for j in 0..k
                    invariant
                        k == c.methods@.len(),
                        string_views(out@) == mid + dyn_methods(c.methods@.take(j as int)),
                {
                    assert(c.methods@.take(j + 1).drop_last() =~= c.methods@.take(j as int));
                    assert(c.methods@.take(j + 1).last() == c.methods@[j as int]);
                    collect_stmts(&c.methods[j].body, &mut out);
                    assert(string_views(out@) =~= mid + dyn_methods(c.methods@.take(j + 1)));
                }
                assert(c.methods@.take(k as int) =~= c.methods@);
            },
            Decl::GeneratorFn(g) => collect_stmts(&g.body, &mut out),
            Decl::FuncDecl(f) => collect_stmts(&f.body, &mut out),
            Decl::TopLevel { value, .. } => collect_expr(value, &mut out),
            Decl::ExportDecl(ExportDecl::Function(f)) => collect_stmts(&f.body, &mut out),
            Decl::ExportDecl(ExportDecl::Const { value, .. }) => collect_expr(value, &mut out),
            _ => {},
        }
        assert(string_views(out@) =~= before + dyn_decl(program.decls@[i as int]));
    }
    assert(program.decls@.take(n as int) =~= program.decls@);
    proof {
        assert forall|sp: Seq<char>| #[trigger] any_decl_dyn(program.decls@, sp) implies string_views(out@).contains(
            sp) by {
            law_every_dynamic_import_is_listed(program.decls@, sp);
        }
    }
    out
}

} // verus!
