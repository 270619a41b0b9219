//! Lowering declarations to the runtime IR: function components, class
//! components, plain and generator functions, and top-level bindings.
//!
//! A function component's body is a list of bindings evaluated at render
//! time (`let`/`const`, destructuring, bare expression statements) and the
//! node its last `return` renders; that node must be an element or a
//! conditional. A class renders through its `render()` methods; its other
//! methods become plain method bodies.

use vstd::prelude::*;
use crate::ast::expr::Expr;
use crate::ast::lit::Literal;
use crate::ast::program::{ClassComponent, Method, Param, Pattern, Stmt};
use crate::compiler::graph::contains_string;
use crate::ir::element::{class_root_node, lower_renderable, render_node, renderable_ok, renders_class_root,
    renders_root, root_node};
use crate::ir::free::free_vars_of_body;
use crate::ir::js::{JsAsyncSegment, JsExpr};
use crate::ir::lower::{pattern_names, pattern_names_of, plain_names_of, plain_param_names, LowerError};
use crate::ir::lowering::{binds_count, binds_var, lowered, pattern_count, stmts_emit, default_assign, lower_destructure, lower_expr, lower_params, lower_segment,
    lower_stmts, lowerable, param_default, params_ok, pattern_ok, segment_ok, stmts_ok, take_stmts, unsupported};
use crate::ir::react::ReactNode;
use crate::ir::runtime::{ClassInfo, ClassMethod, FuncIr, GeneratorIr, RuntimeComponent};
use crate::ir::shape::{contains_await, stmt_kind, suspends};
use crate::text::{owned, str_eq};

verus! {

// ---------------------------------------------------------------------------
// Names in scope.

/// Every name the parameters bind, in order.
pub open spec fn params_names(ps: Seq<Param>) -> Seq<String>
    decreases ps.len(),
{
    if ps.len() == 0 { Seq::empty() } else { params_names(ps.drop_last()) + pattern_names_of(ps.last().pattern) }
}

/// The names a statement of a render body declares.
pub open spec fn stmt_names(st: Stmt) -> Seq<String> {
    match st {
        Stmt::Let { name, .. } => seq![name],
        Stmt::Const { name, .. } => seq![name],
        Stmt::Destructure { pattern, .. } => pattern_names_of(pattern),
        _ => Seq::empty(),
    }
}

/// Every name the statements of a render body declare, in order.
pub open spec fn body_names(s: Seq<Stmt>) -> Seq<String>
    decreases s.len(),
{
    if s.len() == 0 { Seq::empty() } else { body_names(s.drop_last()) + stmt_names(s.last()) }
}

/// The value of the last `return` of a body, if it has one.
pub open spec fn last_return(s: Seq<Stmt>) -> Option<Expr>
    decreases s.len(),
{
    if s.len() == 0 {
        None
    } else {
        match s.last() {
            Stmt::Return(e) => Some(e),
            _ => last_return(s.drop_last()),
        }
    }
}

/// Append the names the parameters bind.
fn push_params_names(params: &Vec<Param>, out: &mut Vec<String>)
    ensures final(out)@ == old(out)@ + params_names(params@),
{
    let ghost start = out@;
    let n = params.len();
    for i in 0..n
        invariant
            n == params@.len(),
            out@ == start + params_names(params@.take(i as int)),
    {
        assert(params@.take(i + 1).drop_last() =~= params@.take(i as int));
        pattern_names(&params[i].pattern, out);
        assert(out@ =~= start + params_names(params@.take(i + 1)));
    }
    assert(params@.take(n as int) =~= params@);
}

/// Append the names the statements of a render body declare.
fn push_body_names(body: &Vec<Stmt>, out: &mut Vec<String>)
    ensures final(out)@ == old(out)@ + body_names(body@),
{
    let ghost start = out@;
    let n = body.len();
    for i in 0..n
        invariant
            n == body@.len(),
            out@ == start + body_names(body@.take(i as int)),
    {
        assert(body@.take(i + 1).drop_last() =~= body@.take(i as int));
        assert(body@.take(i + 1).last() == body@[i as int]);
        match &body[i] {
            Stmt::Let { name, .. } => out.push(name.clone()),
            Stmt::Const { name, .. } => out.push(name.clone()),
            Stmt::Destructure { pattern, .. } => pattern_names(pattern, out),
            _ => {},
        }
        assert(out@ =~= start + body_names(body@.take(i + 1)));
    }
    assert(body@.take(n as int) =~= body@);
}

// ---------------------------------------------------------------------------
// Function components.

/// A component parameter lowers: a plain name whose default lowers, or a
/// pattern without a default.
pub open spec fn comp_param_ok(p: Param) -> bool {
    match p.pattern {
        Pattern::Name { .. } => match param_default(p) {
            Some(d) => lowerable(d),
            None => true,
        },
        _ => p.default is None,
    }
}

/// A statement of a render body lowers: a binding or expression statement
/// whose value lowers, a destructuring whose value and pattern lower, or a
/// `return` of something that renders.
pub open spec fn render_stmt_ok(st: Stmt, index: Seq<(String, usize)>, locals: Seq<String>) -> bool {
    match st {
        Stmt::Let { value, .. } => lowerable(value),
        Stmt::Const { value, .. } => lowerable(value),
        Stmt::Destructure { pattern, value, .. } => lowerable(value) && pattern_ok(pattern),
        Stmt::Expr(e) => lowerable(e),
        Stmt::Return(e) => renderable_ok(e, index, locals),
        _ => false,
    }
}

/// A function component lowers: its parameters and every statement of its
/// body lower (with the parameters and body declarations as locals), and its
/// last `return` renders an element or a conditional.
pub open spec fn component_ok(params: Seq<Param>, body: Seq<Stmt>, index: Seq<(String, usize)>) -> bool {
    &&& forall|i: int| 0 <= i < params.len() ==> #[trigger] comp_param_ok(params[i])
    &&& forall|i: int| 0 <= i < body.len()
        ==> #[trigger] render_stmt_ok(body[i], index, params_names(params) + body_names(body))
    &&& last_return(body) matches Some(e) && renders_root(e)
}

/// How many bindings a statement of a render body adds: one for a
/// binding or an expression statement, one per part of a destructuring
/// (its temporary, then each name), none for a `return`.
pub open spec fn bind_count(st: Stmt) -> nat {
    match st {
        Stmt::Let { .. } => 1,
        Stmt::Const { .. } => 1,
        Stmt::Expr(_) => 1,
        Stmt::Destructure { pattern, .. } => 1 + pattern_count(pattern),
        _ => 0,
    }
}

/// `b` are the bindings the render-body statement `st` adds: a `let` or
/// `const` binds its name to its lowered value, an expression statement runs
/// its lowered expression (under the name `$stmt`), a destructuring first
/// binds its lowered value to a temporary.
pub open spec fn stmt_binds(st: Stmt, b: Seq<(String, JsExpr)>) -> bool {
    &&& b.len() == bind_count(st)
    &&& match st {
        Stmt::Let { name, value } => b[0].0@ == name@ && lowered(value, b[0].1),
        Stmt::Const { name, value } => b[0].0@ == name@ && lowered(value, b[0].1),
        Stmt::Expr(e) => b[0].0@ == "$stmt"@ && lowered(e, b[0].1),
        Stmt::Destructure { value, .. } => lowered(value, b[0].1),
        _ => true,
    }
}

/// `b` are the bindings a render body's statements `s` add, statement by
/// statement and in order.
pub open spec fn body_binds(s: Seq<Stmt>, b: Seq<(String, JsExpr)>) -> bool
    decreases s.len(),
{
    if s.len() == 0 {
        b.len() == 0
    } else {
        let c = bind_count(s.last());
        &&& b.len() >= c
        &&& body_binds(s.drop_last(), b.take(b.len() - c))
        &&& stmt_binds(s.last(), b.skip(b.len() - c))
    }
}

/// How many parameters have a default that a binding applies: plain names
/// with one.
pub open spec fn defaults_count(ps: Seq<Param>) -> nat
    decreases ps.len(),
{
    if ps.len() == 0 {
        0
    } else {
        defaults_count(ps.drop_last()) + if ps.last().pattern is Name && param_default(ps.last()) is Some {
            1nat
        } else {
            0nat
        }
    }
}

/// `null`, the render body before any `return`.
fn null_node() -> (r: ReactNode)
    ensures !root_node(r), !class_root_node(r),
{
    ReactNode::Text(JsExpr::Lit(Literal::Null))
}

/// Lower one statement of a component's render body into `bindings`, or
/// into `node` for a `return`.
fn lower_render_stmt(st: &Stmt, comp: &String, index: &Vec<(String, usize)>, locals: &Vec<String>,
    bindings: &mut Vec<(String, JsExpr)>, node: &mut ReactNode, fresh: &mut u64) -> (r: Result<(), LowerError>)
    ensures
        r is Err <==> !render_stmt_ok(*st, index@, locals@),
        r is Ok ==> match *st {
            Stmt::Return(e) => root_node(*final(node)) <==> renders_root(e),
            _ => *final(node) == *old(node),
        },
        r is Ok ==> match *st {
            Stmt::Return(e) => render_node(e, *final(node)),
            _ => true,
        },
        r is Ok ==> final(bindings)@.len() >= old(bindings)@.len()
            && final(bindings)@.take(old(bindings)@.len() as int) == old(bindings)@
            && stmt_binds(*st, final(bindings)@.skip(old(bindings)@.len() as int)),
{
    let ghost start = bindings@;
    match st {
        Stmt::Let { name, value } => {
            let x = lower_expr(value, index, fresh)?;
            bindings.push((name.clone(), x));
            assert(bindings@.take(start.len() as int) =~= start);
            assert(bindings@.skip(start.len() as int) =~= seq![bindings@.last()]);
            Ok(())
        },
        Stmt::Const { name, value } => {
            let x = lower_expr(value, index, fresh)?;
            bindings.push((name.clone(), x));
            assert(bindings@.take(start.len() as int) =~= start);
            assert(bindings@.skip(start.len() as int) =~= seq![bindings@.last()]);
            Ok(())
        },
        Stmt::Destructure { pattern, value, .. } => {
            let v = lower_expr(value, index, fresh)?;
            let ghost v0 = v;
            let mut tmp: Vec<JsExpr> = Vec::new();
            lower_destructure(pattern, v, index, &mut tmp, fresh)?;
            let ghost total = tmp@.len();
            while tmp.len() > 0
                invariant_except_break
                    render_stmt_ok(*st, index@, locals@),
                    *node == *old(node),
                    total == 1 + pattern_count(*pattern),
                    bindings@.len() + tmp@.len() == start.len() + total,
                    bindings@.len() >= start.len(),
                    bindings@.take(start.len() as int) == start,
                    bindings@.len() > start.len() ==> bindings@[start.len() as int].1 == v0,
                    bindings@.len() == start.len() ==> (tmp@.len() > 0 && (tmp@[0] matches JsExpr::Assign {
                        value: w, .. } && *w == v0)),
                    forall|k: int| 0 <= k < tmp@.len() ==> #[trigger] binds_var(tmp@[k]),
                ensures
                    *node == *old(node),
                    bindings@.len() == start.len() + total,
                    bindings@.take(start.len() as int) == start,
                    bindings@[start.len() as int].1 == v0,
                decreases tmp@.len(),
            {
                let ghost before = tmp@;
                let ghost bb = bindings@;
                assert(binds_var(before[0]));
                let e = tmp.remove(0);
                assert(e == before[0]);
                assert(forall|k: int| 0 <= k < tmp@.len() ==> tmp@[k] == before[k + 1]);
                match e {
                    JsExpr::Assign { target, value } => {
                        let t: JsExpr = *target;
                        match t {
                            JsExpr::Var(n) => bindings.push((n, *value)),
                            other => bindings.push((owned("$stmt"),
                                JsExpr::Assign { target: Box::new(other), value })),
                        }
                    },
                    other => bindings.push((owned("$stmt"), other)),
                }
                assert(bindings@.take(start.len() as int) =~= bb.take(start.len() as int));
                assert(bindings@.len() > start.len() ==> bindings@[start.len() as int] == if bb.len() > start.len() {
                    bb[start.len() as int]
                } else {
                    bindings@.last()
                });
            }
            assert(bindings@.skip(start.len() as int)[0] == bindings@[start.len() as int]);
            Ok(())
        },
        Stmt::Expr(e) => {
            let x = lower_expr(e, index, fresh)?;
            bindings.push((owned("$stmt"), x));
            proof { reveal_strlit("$stmt"); }
            assert(bindings@.take(start.len() as int) =~= start);
            assert(bindings@.skip(start.len() as int) =~= seq![bindings@.last()]);
            Ok(())
        },
        Stmt::Return(e) => {
            let n = lower_renderable(e, index, locals, fresh)?;
            *node = n;
            assert(bindings@.take(start.len() as int) =~= start);
            assert(bindings@.skip(start.len() as int) =~= Seq::<(String, JsExpr)>::empty());
            Ok(())
        },
        other => {
            Err(unsupported("statement in component ", comp.as_str(), &concat2(" render body: ", stmt_kind(other))))
        },
    }
}

/// `a` followed by `b`.
fn concat2(a: &str, b: &str) -> (r: String)
    ensures r@ == a@ + b@,
{
    let mut m: Vec<char> = Vec::new();
    crate::text::push_str(&mut m, a);
    crate::text::push_str(&mut m, b);
    crate::text::string_from_chars(&m)
}

/// Is this node one a function component may return?
fn is_root_node(n: &ReactNode) -> (r: bool)
    ensures r == root_node(*n),
{
    match n {
        ReactNode::Host { .. } | ReactNode::Component { .. } | ReactNode::ComponentExpr { .. }
        | ReactNode::If { .. } | ReactNode::List { .. } | ReactNode::Fragment { .. }
        | ReactNode::ContextProvider { .. } | ReactNode::Portal { .. } | ReactNode::Suspense { .. }
        | ReactNode::StrictMode { .. } => true,
        _ => false,
    }
}

/// Is this node one a class component may return?
fn is_class_root_node(n: &ReactNode) -> (r: bool)
    ensures r == class_root_node(*n),
{
    match n {
        ReactNode::Host { .. } | ReactNode::Component { .. } | ReactNode::ComponentExpr { .. }
        | ReactNode::If { .. } | ReactNode::List { .. } | ReactNode::Fragment { .. }
        | ReactNode::ContextProvider { .. } => true,
        _ => false,
    }
}

/// The names of `free` that `locals` does not hold, in order.
fn without_locals(free: Vec<String>, locals: &Vec<String>) -> (r: Vec<String>)
{
    let mut out: Vec<String> = Vec::new();
    let n = free.len();
    for i in 0..n
        invariant
            n == free@.len(),
    {
        if !contains_string(locals, free[i].as_str()) {
            out.push(free[i].clone());
        }
    }
    out
}

/// Lower a function component (its name, parameters and body): defaults of
/// plain parameters become guarded assignments, the body's statements
/// bindings, its last `return` the rendered node. The captures are the free
/// names of the result that are neither parameters nor bindings.
pub fn lower_component(name: &String, params: &Vec<Param>, body: &Vec<Stmt>, index: &Vec<(String, usize)>,
    fresh: &mut u64) -> (r: Result<RuntimeComponent, LowerError>)
    ensures
        r is Err <==> !component_ok(params@, body@, index@),
        r matches Ok(c) ==> c.name@ == name@ && c.params@ == params_names(params@) && c.class is None
            && root_node(c.body),
        r matches Ok(c) ==> (last_return(body@) matches Some(e) && render_node(e, c.body)),
        r matches Ok(c) ==> c.bindings@.len() >= defaults_count(params@)
            && body_binds(body@, c.bindings@.skip(defaults_count(params@) as int)),
{
    let mut param_names: Vec<String> = Vec::new();
    push_params_names(params, &mut param_names);
    let mut locals: Vec<String> = Vec::new();
    push_params_names(params, &mut locals);
    push_body_names(body, &mut locals);
    assert(locals@ =~= params_names(params@) + body_names(body@));
    let mut bindings: Vec<(String, JsExpr)> = Vec::new();
    let np = params.len();
    for i in 0..np
        invariant
            np == params@.len(),
            forall|j: int| 0 <= j < i ==> #[trigger] comp_param_ok(params@[j]),
            bindings@.len() == defaults_count(params@.take(i as int)),
    {
        let p = &params[i];
        assert(params@.take(i + 1).drop_last() =~= params@.take(i as int));
        assert(params@.take(i + 1).last() == params@[i as int]);
        match &p.pattern {
            Pattern::Name { name: pn, default } => {
                let d: Option<&Expr> = match &p.default {
                    Some(d) => Some(d),
                    None => match default {
                        Some(d) => Some(d),
                        None => None,
                    },
                };
                match d {
                    Some(d) => match default_assign(pn, d, index, fresh) {
                        Ok(a) => bindings.push((pn.clone(), a)),
                        Err(e) => {
                            assert(!comp_param_ok(params@[i as int]));
                            return Err(e);
                        },
                    },
                    None => {},
                }
            },
            _ => {
                if p.default.is_some() {
                    assert(!comp_param_ok(params@[i as int]));
                    return Err(unsupported("default on a destructuring param in component ", name.as_str(), ""));
                }
            },
        }
    }
    assert(params@.take(np as int) =~= params@);
    let ghost k = bindings@.len();
    assert(bindings@.skip(k as int) =~= Seq::<(String, JsExpr)>::empty());
    let mut node = null_node();
    let nb = body.len();
    for i in 0..nb
        invariant
            nb == body@.len(),
            locals@ == params_names(params@) + body_names(body@),
            forall|j: int| 0 <= j < np ==> #[trigger] comp_param_ok(params@[j]),
            forall|j: int| 0 <= j < i ==> #[trigger] render_stmt_ok(body@[j], index@, locals@),
            root_node(node) <==> (last_return(body@.take(i as int)) matches Some(e) && renders_root(e)),
            last_return(body@.take(i as int)) matches Some(e) ==> render_node(e, node),
            k == defaults_count(params@),
            bindings@.len() >= k,
            body_binds(body@.take(i as int), bindings@.skip(k as int)),
    {
        assert(body@.take(i + 1).drop_last() =~= body@.take(i as int));
        assert(body@.take(i + 1).last() == body@[i as int]);
        let ghost mid = bindings@;
        lower_render_stmt(&body[i], name, index, &locals, &mut bindings, &mut node, fresh)?;
        proof {
            let b = bindings@.skip(k as int);
            let c = bind_count(body@[i as int]);
            assert(b.take(b.len() - c) =~= mid.skip(k as int));
            assert(b.skip(b.len() - c) =~= bindings@.skip(mid.len() as int));
        }
    }
    assert(body@.take(nb as int) =~= body@);
    if !is_root_node(&node) {
        return Err(LowerError::NonRenderableReturn(concat2(&concat2("component ", name.as_str()),
            " returns a non-renderable expression")));
    }
    let mut local_names: Vec<String> = Vec::new();
    push_params_names(params, &mut local_names);
    let nbind = bindings.len();
    for i in 0..nbind
        invariant
            nbind == bindings@.len(),
    {
        local_names.push(bindings[i].0.clone());
    }
    let free = free_vars_of_body(bindings.as_slice(), &node);
    let captures = without_locals(free, &local_names);
    Ok(RuntimeComponent { name: name.clone(), params: param_names, captures, bindings, body: node, class: None })
}

// ---------------------------------------------------------------------------
// Plain functions, generators, top-level bindings.

/// A plain function lowers: its parameters and statements do.
pub open spec fn func_ok(params: Seq<Param>, body: Seq<Stmt>) -> bool {
    params_ok(params) && stmts_ok(body)
}

/// Lower `function name(params) { body }`: parameter patterns and defaults
/// bind first, then the statements run; the body is one block.
pub fn lower_func_decl(name: &String, params: &Vec<Param>, body: &Vec<Stmt>, index: &Vec<(String, usize)>,
    fresh: &mut u64) -> (r: Result<FuncIr, LowerError>)
    ensures
        r is Err <==> !func_ok(params@, body@),
        r matches Ok(f) ==> f.name@ == name@ && f.params@.len() == params@.len() && f.body is Block,
        r matches Ok(f) ==> (f.body matches JsExpr::Block(b) && b@.len() >= binds_count(params@)
            && stmts_emit(body@, b@.skip(binds_count(params@) as int))),
{
    let what = concat2("function ", name.as_str());
    let (names, mut stmts) = lower_params(params, index, what.as_str(), fresh)?;
    lower_stmts(body, name.as_str(), index, &mut stmts, fresh)?;
    Ok(FuncIr { name: name.clone(), params: names, body: JsExpr::Block(stmts) })
}

/// A statement a generator body takes: a binding or expression statement or
/// a `return`.
pub open spec fn gen_stmt_kind_ok(st: Stmt) -> bool {
    st is Let || st is Const || st is Expr || st is Return
}

/// The value of a `let`/`const` in a generator body lowers: a suspension
/// whose operand lowers, or a value without one.
pub open spec fn bound_segment_ok(value: Expr) -> bool {
    match value {
        Expr::Await { value: v, .. } => lowerable(*v),
        Expr::Yield { value: v, .. } => match v {
            Some(x) => lowerable(*x),
            None => true,
        },
        _ => !suspends(value) && lowerable(value),
    }
}

/// A statement of a generator body lowers.
pub open spec fn gen_stmt_ok(st: Stmt) -> bool {
    match st {
        Stmt::Let { value, .. } => bound_segment_ok(value),
        Stmt::Const { value, .. } => bound_segment_ok(value),
        Stmt::Expr(e) => segment_ok(e),
        Stmt::Return(e) => segment_ok(e),
        _ => false,
    }
}

/// A generator lowers: each statement is of a kind it takes, and lowers.
pub open spec fn generator_ok(body: Seq<Stmt>) -> bool {
    &&& forall|i: int| 0 <= i < body.len() ==> #[trigger] gen_stmt_kind_ok(body[i])
    &&& forall|i: int| 0 <= i < body.len() ==> #[trigger] gen_stmt_ok(body[i])
}

/// `name = value` in a generator body: a suspension binds `name` on resume;
/// any other value joins the current segment as an assignment.
fn lower_bound_segment(name: &String, value: &Expr, cur: &mut Vec<JsExpr>, segs: &mut Vec<JsAsyncSegment>,
    index: &Vec<(String, usize)>, fresh: &mut u64) -> (r: Result<(), LowerError>)
    ensures
        r is Err <==> !bound_segment_ok(*value),
{
    match value {
        Expr::Await { value: v, .. } => {
            let taken = take_stmts(cur);
            let x = lower_expr(v, index, fresh)?;
            segs.push(JsAsyncSegment {
                stmts: taken,
                await_expr: Some(Box::new(x)),
                await_bind: Some(name.clone()),
                await_completes: false,
            });
            Ok(())
        },
        Expr::Yield { value: v, .. } => {
            let taken = take_stmts(cur);
            let x = match v {
                Some(y) => lower_expr(y, index, fresh)?,
                None => JsExpr::Lit(Literal::Undefined),
            };
            segs.push(JsAsyncSegment {
                stmts: taken,
                await_expr: Some(Box::new(x)),
                await_bind: Some(name.clone()),
                await_completes: false,
            });
            Ok(())
        },
        _ => {
            if contains_await(value) {
                return Err(LowerError::UnsupportedAwait(owned(
                    "yield is only supported as a statement value: let x = yield v; | x = yield v; | yield v; | return yield v;")));
            }
            let x = lower_expr(value, index, fresh)?;
            let target = if str_eq(name.as_str(), "undefined") {
                JsExpr::Lit(Literal::Undefined)
            } else {
                JsExpr::Var(name.clone())
            };
            cur.push(JsExpr::Assign { target: Box::new(target), value: Box::new(x) });
            Ok(())
        },
    }
}

/// Lower one statement of a generator body into the segments.
fn lower_gen_stmt(st: &Stmt, cur: &mut Vec<JsExpr>, segs: &mut Vec<JsAsyncSegment>, index: &Vec<(String, usize)>,
    fresh: &mut u64) -> (r: Result<(), LowerError>)
    requires
        gen_stmt_kind_ok(*st),
    ensures
        r is Err <==> !gen_stmt_ok(*st),
{
    match st {
        Stmt::Let { name: x, value } => lower_bound_segment(x, value, cur, segs, index, fresh),
        Stmt::Const { name: x, value } => lower_bound_segment(x, value, cur, segs, index, fresh),
        Stmt::Expr(e) => lower_segment(e, cur, segs, index, fresh),
        Stmt::Return(e) => {
            match e {
                Expr::Yield { value, .. } => {
                    let x = match value {
                        Some(y) => lower_expr(y, index, fresh)?,
                        None => JsExpr::Lit(Literal::Undefined),
                    };
                    let taken = take_stmts(cur);
                    segs.push(JsAsyncSegment {
                        stmts: taken,
                        await_expr: Some(Box::new(x)),
                        await_bind: None,
                        await_completes: true,
                    });
                    Ok(())
                },
                _ => lower_segment(e, cur, segs, index, fresh),
            }
        },
        _ => Err(unsupported("statement in generator body: ", stmt_kind(st), "")),
    }
}

/// Lower `function* name(params) { body }` to the segments between its
/// suspensions; `return yield v` completes the generator with the value it
/// is resumed with.
pub fn lower_generator_fn(name: &String, params: &Vec<Param>, body: &Vec<Stmt>, index: &Vec<(String, usize)>,
    fresh: &mut u64) -> (r: Result<GeneratorIr, LowerError>)
    ensures
        r is Err <==> !generator_ok(body@),
        r matches Ok(g) ==> g.name@ == name@ && g.params@ == plain_names_of(params@) && g.segments@.len() > 0,
{
    let n = body.len();
    for i in 0..n
        invariant
            n == body@.len(),
            forall|j: int| 0 <= j < i ==> #[trigger] gen_stmt_kind_ok(body@[j]),
    {
        match &body[i] {
            Stmt::Let { .. } | Stmt::Const { .. } | Stmt::Expr(_) | Stmt::Return(_) => {},
            other => {
                assert(!gen_stmt_kind_ok(body@[i as int]));
                return Err(unsupported("statement in generator body: ", stmt_kind(other), ""));
            },
        }
    }
    let mut segs: Vec<JsAsyncSegment> = Vec::new();
    let mut cur: Vec<JsExpr> = Vec::new();
    for i in 0..n
        invariant
            n == body@.len(),
            forall|j: int| 0 <= j < n ==> #[trigger] gen_stmt_kind_ok(body@[j]),
            forall|j: int| 0 <= j < i ==> #[trigger] gen_stmt_ok(body@[j]),
    {
        match lower_gen_stmt(&body[i], &mut cur, &mut segs, index, fresh) {
            Ok(()) => {},
            Err(e) => {
                assert(!gen_stmt_ok(body@[i as int]));
                return Err(e);
            },
        }
    }
    segs.push(JsAsyncSegment { stmts: cur, await_expr: None, await_bind: None, await_completes: false });
    Ok(GeneratorIr { name: name.clone(), params: plain_param_names(params.as_slice()), segments: segs })
}

/// A top-level binding lowers: its value does, and its pattern is a plain
/// name or a pattern that lowers.
pub open spec fn top_level_ok(pattern: Pattern, value: Expr) -> bool {
    lowerable(value) && (pattern is Name || pattern_ok(pattern))
}

/// Lower a top-level `let`/`const`, appending one `(name, value)` per name
/// it binds (a pattern through a `$dstN` temporary).
pub fn lower_top_level(pattern: &Pattern, value: &Expr, index: &Vec<(String, usize)>,
    out: &mut Vec<(String, JsExpr)>, fresh: &mut u64) -> (r: Result<(), LowerError>)
    ensures
        r is Err <==> !top_level_ok(*pattern, *value),
{
    let v = lower_expr(value, index, fresh)?;
    match pattern {
        Pattern::Name { name, .. } => {
            out.push((name.clone(), v));
            Ok(())
        },
        _ => {
            let mut tmp: Vec<JsExpr> = Vec::new();
            lower_destructure(pattern, v, index, &mut tmp, fresh)?;
            while tmp.len() > 0
                invariant
                    top_level_ok(*pattern, *value),
                    forall|k: int| 0 <= k < tmp@.len() ==> #[trigger] binds_var(tmp@[k]),
                decreases tmp@.len(),
            {
                let ghost before = tmp@;
                assert(binds_var(before[0]));
                let e = tmp.remove(0);
                assert(forall|k: int| 0 <= k < tmp@.len() ==> tmp@[k] == before[k + 1]);
                assert(binds_var(e));
                match e {
                    JsExpr::Assign { target, value } => {
                        let t: JsExpr = *target;
                        match t {
                            JsExpr::Var(n) => out.push((n, *value)),
                            _ => {
                                return Err(unsupported("non-variable destructuring target in top-level let", "", ""));
                            },
                        }
                    },
                    _ => {
                        return Err(unsupported("non-assign in top-level destructuring expansion", "", ""));
                    },
                }
            }
            Ok(())
        },
    }
}

// ---------------------------------------------------------------------------
// Class components.

/// `class Name extends Component`: a React class, rendered through
/// `render()`; any other class is a plain ES class, a value.
pub open spec fn is_react_class(c: ClassComponent) -> bool {
    c.extends matches Some(b) && b@ == "Component"@
}

/// A method named `render`.
pub open spec fn is_render(m: Method) -> bool {
    m.name@ == "render"@
}

/// A statement of a method body lowers: a binding, expression statement or
/// `return` whose value lowers.
pub open spec fn method_stmt_ok(st: Stmt) -> bool {
    match st {
        Stmt::Let { value, .. } => lowerable(value),
        Stmt::Const { value, .. } => lowerable(value),
        Stmt::Return(e) => lowerable(e),
        Stmt::Expr(e) => lowerable(e),
        _ => false,
    }
}

/// Every statement of a method body lowers.
pub open spec fn method_body_ok(s: Seq<Stmt>) -> bool {
    forall|j: int| 0 <= j < s.len() ==> #[trigger] method_stmt_ok(s[j])
}

/// Every method lowers (the `render` methods aside, when `skip_render`).
pub open spec fn methods_ok(ms: Seq<Method>, skip_render: bool) -> bool {
    forall|i: int| 0 <= i < ms.len() ==> (skip_render && is_render(#[trigger] ms[i])) || method_body_ok(ms[i].body@)
}

/// A statement of a class's render body lowers.
pub open spec fn class_render_stmt_ok(st: Stmt, index: Seq<(String, usize)>, locals: Seq<String>) -> bool {
    match st {
        Stmt::Let { value, .. } => lowerable(value),
        Stmt::Const { value, .. } => lowerable(value),
        Stmt::Return(e) => renderable_ok(e, index, locals),
        Stmt::Expr(e) => lowerable(e),
        _ => false,
    }
}

/// Every statement of a render body lowers.
pub open spec fn render_body_ok(s: Seq<Stmt>, index: Seq<(String, usize)>, locals: Seq<String>) -> bool {
    forall|j: int| 0 <= j < s.len() ==> #[trigger] class_render_stmt_ok(s[j], index, locals)
}

/// Every `render` method's body lowers.
pub open spec fn render_methods_ok(ms: Seq<Method>, index: Seq<(String, usize)>, locals: Seq<String>) -> bool {
    forall|i: int| 0 <= i < ms.len() && is_render(#[trigger] ms[i]) ==> render_body_ok(ms[i].body@, index, locals)
}

/// The names the `render` methods declare, in order.
pub open spec fn class_locals(ms: Seq<Method>) -> Seq<String>
    decreases ms.len(),
{
    if ms.len() == 0 {
        Seq::empty()
    } else {
        class_locals(ms.drop_last()) + if is_render(ms.last()) { body_names(ms.last().body@) } else { Seq::empty() }
    }
}

/// The value of the last `return` of the `render` methods, if any.
pub open spec fn class_last_return(ms: Seq<Method>) -> Option<Expr>
    decreases ms.len(),
{
    if ms.len() == 0 {
        None
    } else if is_render(ms.last()) && last_return(ms.last().body@) is Some {
        last_return(ms.last().body@)
    } else {
        class_last_return(ms.drop_last())
    }
}

/// An initial state that lowers, or none.
pub open spec fn state_ok(s: Option<Expr>) -> bool {
    match s {
        Some(e) => lowerable(e),
        None => true,
    }
}

/// A class lowers. A React class: its render bodies lower, the last `return`
/// among them renders a node a class may return, its state and its other
/// methods lower. A plain class: its state and all its methods lower.
pub open spec fn class_ok(c: ClassComponent, index: Seq<(String, usize)>) -> bool {
    if is_react_class(c) {
        &&& render_methods_ok(c.methods@, index, class_locals(c.methods@))
        &&& class_last_return(c.methods@) matches Some(e) && renders_class_root(e)
        &&& state_ok(c.state)
        &&& methods_ok(c.methods@, true)
    } else {
        state_ok(c.state) && methods_ok(c.methods@, false)
    }
}

/// One statement of a method body: `let`/`const` assign, others are their
/// value.
fn lower_method_stmt(st: &Stmt, what: &str, index: &Vec<(String, usize)>, fresh: &mut u64)
    -> (r: Result<JsExpr, LowerError>)
    ensures
        r is Err <==> !method_stmt_ok(*st),
{
    match st {
        Stmt::Let { name, value } => {
            let x = lower_expr(value, index, fresh)?;
            Ok(JsExpr::Assign { target: Box::new(JsExpr::Var(name.clone())), value: Box::new(x) })
        },
        Stmt::Const { name, value } => {
            let x = lower_expr(value, index, fresh)?;
            Ok(JsExpr::Assign { target: Box::new(JsExpr::Var(name.clone())), value: Box::new(x) })
        },
        Stmt::Return(e) => lower_expr(e, index, fresh),
        Stmt::Expr(e) => lower_expr(e, index, fresh),
        _ => Err(unsupported(what, ": ", stmt_kind(st))),
    }
}

/// Lower the methods of a class (its `render` methods aside, when
/// `skip_render`), each to its plain parameter names and a block body.
fn lower_methods(ms: &Vec<Method>, skip_render: bool, es: bool, index: &Vec<(String, usize)>, fresh: &mut u64)
    -> (r: Result<Vec<(String, ClassMethod)>, LowerError>)
    ensures
        r is Err <==> !methods_ok(ms@, skip_render),
{
    let mut out: Vec<(String, ClassMethod)> = Vec::new();
    let n = ms.len();
    for i in 0..n
        invariant
            n == ms@.len(),
            forall|k: int| 0 <= k < i ==> (skip_render && is_render(#[trigger] ms@[k])) || method_body_ok(ms@[k].body@),
    {
        let m = &ms[i];
        if !(skip_render && str_eq(m.name.as_str(), "render")) {
            let what = if es {
                concat2("statement in ES class method ", m.name.as_str())
            } else {
                concat2("statement in class method ", m.name.as_str())
            };
            let mut stmts: Vec<JsExpr> = Vec::new();
            let nb = m.body.len();
            for j in 0..nb
                invariant
                    nb == m.body@.len(),
                    0 <= i < n,
                    n == ms@.len(),
                    *m == ms@[i as int],
                    !(skip_render && is_render(ms@[i as int])),
                    forall|k: int| 0 <= k < j ==> #[trigger] method_stmt_ok(m.body@[k]),
            {
                match lower_method_stmt(&m.body[j], what.as_str(), index, fresh) {
                    Ok(x) => stmts.push(x),
                    Err(e) => {
                        assert(!method_stmt_ok(m.body@[j as int]));
                        assert(!method_body_ok(ms@[i as int].body@));
                        assert(!((skip_render && is_render(ms@[i as int])) || method_body_ok(ms@[i as int].body@)));
                        return Err(e);
                    },
                }
            }
            out.push((m.name.clone(), ClassMethod { params: plain_param_names(m.params.as_slice()), body: JsExpr::Block(stmts) }));
        }
    }
    Ok(out)
}

/// One statement of a class's render body.
fn lower_class_render_stmt(st: &Stmt, cls: &String, index: &Vec<(String, usize)>, locals: &Vec<String>,
    bindings: &mut Vec<(String, JsExpr)>, node: &mut ReactNode, fresh: &mut u64) -> (r: Result<(), LowerError>)
    ensures
        r is Err <==> !class_render_stmt_ok(*st, index@, locals@),
        r is Ok ==> match *st {
            Stmt::Return(e) => class_root_node(*final(node)) <==> renders_class_root(e),
            _ => *final(node) == *old(node),
        },
{
    match st {
        Stmt::Let { name, value } => {
            let x = lower_expr(value, index, fresh)?;
            bindings.push((name.clone(), x));
            Ok(())
        },
        Stmt::Const { name, value } => {
            let x = lower_expr(value, index, fresh)?;
            bindings.push((name.clone(), x));
            Ok(())
        },
        Stmt::Return(e) => {
            let n = lower_renderable(e, index, locals, fresh)?;
            *node = n;
            Ok(())
        },
        Stmt::Expr(e) => {
            let x = lower_expr(e, index, fresh)?;
            bindings.push((owned("$stmt"), x));
            Ok(())
        },
        _ => Err(unsupported("statement in class ", cls.as_str(), &concat2(" render body: ", stmt_kind(st)))),
    }
}

/// One `render` method's body.
fn lower_render_body(body: &Vec<Stmt>, cls: &String, index: &Vec<(String, usize)>, locals: &Vec<String>,
    bindings: &mut Vec<(String, JsExpr)>, node: &mut ReactNode, fresh: &mut u64) -> (r: Result<(), LowerError>)
    ensures
        r is Err <==> !render_body_ok(body@, index@, locals@),
        r is Ok ==> (class_root_node(*final(node)) <==> match last_return(body@) {
            Some(e) => renders_class_root(e),
            None => class_root_node(*old(node)),
        }),
{
    let n = body.len();
    for j in 0..n
        invariant
            n == body@.len(),
            forall|k: int| 0 <= k < j ==> #[trigger] class_render_stmt_ok(body@[k], index@, locals@),
            class_root_node(*node) <==> match last_return(body@.take(j as int)) {
                Some(e) => renders_class_root(e),
                None => class_root_node(*old(node)),
            },
    {
        assert(body@.take(j + 1).drop_last() =~= body@.take(j as int));
        assert(body@.take(j + 1).last() == body@[j as int]);
        lower_class_render_stmt(&body[j], cls, index, locals, bindings, node, fresh)?;
    }
    assert(body@.take(n as int) =~= body@);
    Ok(())
}

/// Lower a class. A plain class keeps only its state and methods; a React
/// class renders through its `render()` methods, whose bindings and last
/// `return` become the component's bindings and body.
pub fn lower_class(c: &ClassComponent, index: &Vec<(String, usize)>, fresh: &mut u64)
    -> (r: Result<RuntimeComponent, LowerError>)
    ensures
        r is Err <==> !class_ok(*c, index@),
        r matches Ok(rc) ==> rc.name@ == c.name@ && rc.class is Some
            && (is_react_class(*c) ==> class_root_node(rc.body)),
{
    let is_react = match &c.extends {
        Some(b) => str_eq(b.as_str(), "Component"),
        None => false,
    };
    let ms = &c.methods;
    let nm = ms.len();
    if !is_react {
        let state = match &c.state {
            Some(e) => Some(lower_expr(e, index, fresh)?),
            None => None,
        };
        let methods = lower_methods(ms, false, true, index, fresh)?;
        return Ok(RuntimeComponent {
            name: c.name.clone(),
            params: Vec::new(),
            captures: Vec::new(),
            bindings: Vec::new(),
            body: null_node(),
            class: Some(ClassInfo { state, methods }),
        });
    }
    let mut locals: Vec<String> = Vec::new();
    for i in 0..nm
        invariant
            nm == ms@.len(),
            locals@ == class_locals(ms@.take(i as int)),
    {
        assert(ms@.take(i + 1).drop_last() =~= ms@.take(i as int));
        assert(ms@.take(i + 1).last() == ms@[i as int]);
        if str_eq(ms[i].name.as_str(), "render") {
            push_body_names(&ms[i].body, &mut locals);
        }
        assert(locals@ =~= class_locals(ms@.take(i + 1)));
    }
    assert(ms@.take(nm as int) =~= ms@);
    let mut bindings: Vec<(String, JsExpr)> = Vec::new();
    let mut node = null_node();
    for i in 0..nm
        invariant
            nm == ms@.len(),
            ms@ == c.methods@,
            is_react_class(*c),
            locals@ == class_locals(ms@),
            forall|k: int| 0 <= k < i && is_render(#[trigger] ms@[k]) ==> render_body_ok(ms@[k].body@, index@, locals@),
            class_root_node(node) <==> (class_last_return(ms@.take(i as int)) matches Some(e) && renders_class_root(e)),
    {
        assert(ms@.take(i + 1).drop_last() =~= ms@.take(i as int));
        assert(ms@.take(i + 1).last() == ms@[i as int]);
        if str_eq(ms[i].name.as_str(), "render") {
            match lower_render_body(&ms[i].body, &c.name, index, &locals, &mut bindings, &mut node, fresh) {
                Ok(()) => {},
                Err(e) => {
                    assert(is_render(ms@[i as int]));
                    assert(!render_body_ok(ms@[i as int].body@, index@, locals@));
                    assert(!render_methods_ok(c.methods@, index@, class_locals(c.methods@)));
                    return Err(e);
                },
            }
        }
    }
    assert(ms@.take(nm as int) =~= ms@);
    if !is_class_root_node(&node) {
        return Err(LowerError::NonRenderableReturn(concat2(&concat2("class ", c.name.as_str()),
            " renders a non-renderable expression")));
    }
    let state = match &c.state {
        Some(e) => Some(lower_expr(e, index, fresh)?),
        None => None,
    };
    let methods = lower_methods(ms, true, false, index, fresh)?;
    Ok(RuntimeComponent {
        name: c.name.clone(),
        params: Vec::new(),
        captures: Vec::new(),
        bindings,
        body: node,
        class: Some(ClassInfo { state, methods }),
    })
}

} // verus!
