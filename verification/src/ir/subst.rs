//! Renaming a variable in JS IR expressions and React IR nodes: every read
//! of the name `from` becomes a read of `to`. A catch parameter named `from`
//! shadows it in its catch block; nothing else is changed.

use vstd::prelude::*;
use crate::ir::js::{JsArrayItem, JsAsyncSegment, JsExpr, JsObjectItem, SwitchCase};
use crate::ir::react::ReactNode;
use crate::text::{owned, str_eq};

verus! {

/// The name `v` after renaming `from` to `to`.
pub open spec fn renamed(v: Seq<char>, from: Seq<char>, to: Seq<char>) -> Seq<char> {
    if v == from {
        to
    } else {
        v
    }
}

/// `r` is `e` with every read of `from` turned into a read of `to`: the same
/// shape, each variable renamed, every other field as it was, and a catch
/// block whose parameter is `from` left as it was.
pub open spec fn subst_rel(e: JsExpr, r: JsExpr, from: Seq<char>, to: Seq<char>) -> bool
    decreases e, 3nat,
{
    match e {
        JsExpr::Var(v) => r matches JsExpr::Var(w) && w@ == renamed(v@, from, to),
        JsExpr::Lit(l) => r == JsExpr::Lit(l),
        JsExpr::Builtin(b) => r == JsExpr::Builtin(b),
        JsExpr::Break => r == JsExpr::Break,
        JsExpr::Continue => r == JsExpr::Continue,
        JsExpr::Get { base, prop } =>
            r matches JsExpr::Get { base: b, prop: p } && p == prop && subst_rel(*base, *b, from, to),
        JsExpr::Index { base, key } =>
            r matches JsExpr::Index { base: b, key: k } && subst_rel(*base, *b, from, to) && subst_rel(*key, *k, from, to),
        JsExpr::Bin { op, left, right } =>
            r matches JsExpr::Bin { op: o, left: l, right: rr } && o == op && subst_rel(*left, *l, from, to)
                && subst_rel(*right, *rr, from, to),
        JsExpr::Un { op, expr } =>
            r matches JsExpr::Un { op: o, expr: x } && o == op && subst_rel(*expr, *x, from, to),
        JsExpr::Call { callee, args } =>
            r matches JsExpr::Call { callee: c, args: a } && subst_rel(*callee, *c, from, to)
                && subst_rel_list(args@, a@, from, to),
        JsExpr::SpreadArg(x) => r matches JsExpr::SpreadArg(y) && subst_rel(*x, *y, from, to),
        JsExpr::New { callee, args } =>
            r matches JsExpr::New { callee: c, args: a } && subst_rel(*callee, *c, from, to)
                && subst_rel_list(args@, a@, from, to),
        JsExpr::Closure { params, captures, body } =>
            r matches JsExpr::Closure { params: p, captures: c, body: b } && p == params && c == captures
                && subst_rel(*body, *b, from, to),
        JsExpr::Array(items) => r matches JsExpr::Array(its) && subst_rel_array(items@, its@, from, to),
        JsExpr::Object(items) => r matches JsExpr::Object(its) && subst_rel_object(items@, its@, from, to),
        JsExpr::While { cond, body, step } =>
            r matches JsExpr::While { cond: c, body: b, step: s } && subst_rel(*cond, *c, from, to)
                && subst_rel(*body, *b, from, to) && (match step {
                    Some(x) => s matches Some(y) && subst_rel(*x, *y, from, to),
                    None => s is None,
                }),
        JsExpr::Switch { disc, cases, default } =>
            r matches JsExpr::Switch { disc: d, cases: cs, default: df } && subst_rel(*disc, *d, from, to)
                && subst_rel_cases(cases@, cs@, from, to) && (match default {
                    Some(x) => df matches Some(y) && subst_rel_list(x@, y@, from, to),
                    None => df is None,
                }),
        JsExpr::Return(v) => r matches JsExpr::Return(w) && (match v {
            Some(x) => w matches Some(y) && subst_rel(*x, *y, from, to),
            None => w is None,
        }),
        JsExpr::Update { inc, target, prefix } =>
            r matches JsExpr::Update { inc: i, target: t, prefix: p } && i == inc && p == prefix
                && subst_rel(*target, *t, from, to),
        JsExpr::Block(stmts) => r matches JsExpr::Block(ss) && subst_rel_list(stmts@, ss@, from, to),
        JsExpr::Assign { target, value } =>
            r matches JsExpr::Assign { target: t, value: v } && subst_rel(*target, *t, from, to)
                && subst_rel(*value, *v, from, to),
        JsExpr::If { cond, then, else_ } =>
            r matches JsExpr::If { cond: c, then: t, else_: x } && subst_rel(*cond, *c, from, to)
                && subst_rel(*then, *t, from, to) && subst_rel(*else_, *x, from, to),
        JsExpr::AsyncFn { params, segments } =>
            r matches JsExpr::AsyncFn { params: p, segments: sg } && p == params
                && subst_rel_segments(segments@, sg@, from, to),
        JsExpr::Throw { value } => r matches JsExpr::Throw { value: v } && subst_rel(*value, *v, from, to),
        JsExpr::Try { block, catch_param, catch, finally } =>
            r matches JsExpr::Try { block: b, catch_param: cp, catch: c, finally: f }
                && subst_rel_list(block@, b@, from, to) && cp == catch_param
                && (if shadows(catch_param, from) {
                    c == catch
                } else {
                    match catch {
                        Some(x) => c matches Some(y) && subst_rel_list(x@, y@, from, to),
                        None => c is None,
                    }
                }) && (match finally {
                    Some(x) => f matches Some(y) && subst_rel_list(x@, y@, from, to),
                    None => f is None,
                }),
        JsExpr::Children(nodes) => r matches JsExpr::Children(ns) && subst_rel_nodes(nodes@, ns@, from, to),
    }
}

/// A catch parameter named `from` shadows it in the catch block.
pub open spec fn shadows(catch_param: Option<String>, from: Seq<char>) -> bool {
    catch_param matches Some(p) && p@ == from
}

/// `r` is the React node `n` with every read of `from` turned into a read of
/// `to`, everything else as it was.
pub open spec fn subst_node_rel(n: ReactNode, r: ReactNode, from: Seq<char>, to: Seq<char>) -> bool
    decreases n, 3nat,
{
    match n {
        ReactNode::Host { tag, props, children } =>
            r matches ReactNode::Host { tag: t, props: p, children: c } && t == tag
                && subst_rel_props(props@, p@, from, to) && subst_rel_nodes(children@, c@, from, to),
        ReactNode::Component { component, props } =>
            r matches ReactNode::Component { component: c, props: p } && c == component
                && subst_rel_props(props@, p@, from, to),
        ReactNode::ComponentExpr { component, props } =>
            r matches ReactNode::ComponentExpr { component: c, props: p } && subst_rel(component, c, from, to)
                && subst_rel_props(props@, p@, from, to),
        ReactNode::If { cond, then, else_ } =>
            r matches ReactNode::If { cond: c, then: t, else_: x } && subst_rel(cond, c, from, to)
                && subst_node_rel(*then, *t, from, to) && subst_node_rel(*else_, *x, from, to),
        ReactNode::List { items, key_expr, item } =>
            r matches ReactNode::List { items: i, key_expr: k, item: t } && subst_rel(items, i, from, to)
                && subst_rel(key_expr, k, from, to) && subst_node_rel(*item, *t, from, to),
        ReactNode::ContextProvider { ctx, value, children } =>
            r matches ReactNode::ContextProvider { ctx: c, value: v, children: ch } && subst_rel(ctx, c, from, to)
                && subst_rel(value, v, from, to) && subst_rel_nodes(children@, ch@, from, to),
        ReactNode::StrictMode { children } =>
            r matches ReactNode::StrictMode { children: c } && subst_rel_nodes(children@, c@, from, to),
        ReactNode::Suspense { fallback, children } =>
            r matches ReactNode::Suspense { fallback: f, children: c } && subst_node_rel(*fallback, *f, from, to)
                && subst_rel_nodes(children@, c@, from, to),
        ReactNode::Portal { target, children } =>
            r matches ReactNode::Portal { target: t, children: c } && t == target
                && subst_rel_nodes(children@, c@, from, to),
        ReactNode::Text(x) => r matches ReactNode::Text(y) && subst_rel(x, y, from, to),
        ReactNode::Children => r == ReactNode::Children,
        ReactNode::Fragment { key, children } =>
            r matches ReactNode::Fragment { key: k, children: c } && (match key {
                Some(x) => k matches Some(y) && subst_rel(x, y, from, to),
                None => k is None,
            }) && subst_rel_nodes(children@, c@, from, to),
    }
}

/// `subst_rel` over a list of expressions, item by item.
pub open spec fn subst_rel_list(s: Seq<JsExpr>, t: Seq<JsExpr>, from: Seq<char>, to: Seq<char>) -> bool
    decreases s, 2nat,
{
    if s.len() == 0 {
        t.len() == 0
    } else {
        t.len() == s.len() && subst_rel_list(s.drop_last(), t.drop_last(), from, to)
            && subst_rel(s.last(), t.last(), from, to)
    }
}

/// `subst_rel` over the items of an array literal, item by item.
pub open spec fn subst_rel_array(s: Seq<JsArrayItem>, t: Seq<JsArrayItem>, from: Seq<char>, to: Seq<char>) -> bool
    decreases s, 2nat,
{
    if s.len() == 0 {
        t.len() == 0
    } else {
        t.len() == s.len() && subst_rel_array(s.drop_last(), t.drop_last(), from, to)
            && (match s.last() {
            JsArrayItem::Expr(x) => t.last() matches JsArrayItem::Expr(y) && subst_rel(x, y, from, to),
            JsArrayItem::Spread(x) => t.last() matches JsArrayItem::Spread(y) && subst_rel(x, y, from, to),
        })
    }
}

/// `subst_rel` over the items of an object literal; a shorthand item is renamed too, item by item.
pub open spec fn subst_rel_object(s: Seq<JsObjectItem>, t: Seq<JsObjectItem>, from: Seq<char>, to: Seq<char>) -> bool
    decreases s, 2nat,
{
    if s.len() == 0 {
        t.len() == 0
    } else {
        t.len() == s.len() && subst_rel_object(s.drop_last(), t.drop_last(), from, to)
            && (match s.last() {
            JsObjectItem::Shorthand(n) => t.last() matches JsObjectItem::Shorthand(m) && m@ == renamed(n@, from, to),
            JsObjectItem::Prop(k, x) => t.last() matches JsObjectItem::Prop(k2, y) && k2 == k && subst_rel(x, y, from, to),
            JsObjectItem::Spread(x) => t.last() matches JsObjectItem::Spread(y) && subst_rel(x, y, from, to),
        })
    }
}

/// `subst_rel` over the cases of a `switch`, item by item.
pub open spec fn subst_rel_cases(s: Seq<SwitchCase>, t: Seq<SwitchCase>, from: Seq<char>, to: Seq<char>) -> bool
    decreases s, 2nat,
{
    if s.len() == 0 {
        t.len() == 0
    } else {
        t.len() == s.len() && subst_rel_cases(s.drop_last(), t.drop_last(), from, to)
            && subst_rel(s.last().test, t.last().test, from, to)
            && subst_rel_list(s.last().body@, t.last().body@, from, to)
    }
}

/// `subst_rel` over the segments of an async function, item by item.
pub open spec fn subst_rel_segments(s: Seq<JsAsyncSegment>, t: Seq<JsAsyncSegment>, from: Seq<char>, to: Seq<char>) -> bool
    decreases s, 2nat,
{
    if s.len() == 0 {
        t.len() == 0
    } else {
        t.len() == s.len() && subst_rel_segments(s.drop_last(), t.drop_last(), from, to)
            && subst_rel_list(s.last().stmts@, t.last().stmts@, from, to)
            && t.last().await_bind == s.last().await_bind && t.last().await_completes == s.last().await_completes
            && (match s.last().await_expr {
                Some(x) => t.last().await_expr matches Some(y) && subst_rel(*x, *y, from, to),
                None => t.last().await_expr is None,
            })
    }
}

/// `subst_rel` over a list of props, item by item.
pub open spec fn subst_rel_props(s: Seq<(String, JsExpr)>, t: Seq<(String, JsExpr)>, from: Seq<char>, to: Seq<char>) -> bool
    decreases s, 2nat,
{
    if s.len() == 0 {
        t.len() == 0
    } else {
        t.len() == s.len() && subst_rel_props(s.drop_last(), t.drop_last(), from, to)
            && t.last().0 == s.last().0 && subst_rel(s.last().1, t.last().1, from, to)
    }
}

/// `subst_rel` over a list of nodes, item by item.
pub open spec fn subst_rel_nodes(s: Seq<ReactNode>, t: Seq<ReactNode>, from: Seq<char>, to: Seq<char>) -> bool
    decreases s, 2nat,
{
    if s.len() == 0 {
        t.len() == 0
    } else {
        t.len() == s.len() && subst_rel_nodes(s.drop_last(), t.drop_last(), from, to)
            && subst_node_rel(s.last(), t.last(), from, to)
    }
}

#[verifier::loop_isolation(false)]
pub fn subst_list(v: Vec<JsExpr>, from: &str, to: &str) -> (r: Vec<JsExpr>)
    ensures subst_rel_list(v@, r@, from@, to@),
    decreases v@, 2nat,
{
    let ghost orig = v@;
    let mut v = v;
    let mut out: Vec<JsExpr> = Vec::new();
    let n = v.len();
    assert(orig.take(0) =~= Seq::<JsExpr>::empty());
    for i in 0..n
        invariant
            n == orig.len(),
            v@ == orig.skip(i as int),
            out@.len() == i,
            subst_rel_list(orig.take(i as int), out@, from@, to@),
    {
        let x = v.remove(0);
        assert(x == orig[i as int]);
        assert(decreases_to!(orig => orig[i as int]));
        assert(decreases_to!(orig => x));
        let y = subst_expr(x, from, to);
        let ghost before = out@;
        out.push(y);
        proof {
            let s = orig.take(i + 1);
            assert(s.drop_last() =~= orig.take(i as int));
            assert(s.last() == orig[i as int]);
            assert(out@.drop_last() =~= before);
            assert(v@ =~= orig.skip(i + 1));
        }
    }
    assert(orig.take(n as int) =~= orig);
    out
}

#[verifier::loop_isolation(false)]
fn subst_array(v: Vec<JsArrayItem>, from: &str, to: &str) -> (r: Vec<JsArrayItem>)
    ensures subst_rel_array(v@, r@, from@, to@),
    decreases v@, 2nat,
{
    let ghost orig = v@;
    let mut v = v;
    let mut out: Vec<JsArrayItem> = Vec::new();
    let n = v.len();
    assert(orig.take(0) =~= Seq::<JsArrayItem>::empty());
    for i in 0..n
        invariant
            n == orig.len(),
            v@ == orig.skip(i as int),
            out@.len() == i,
            subst_rel_array(orig.take(i as int), out@, from@, to@),
    {
        let x = v.remove(0);
        assert(x == orig[i as int]);
        assert(decreases_to!(orig => orig[i as int]));
        assert(decreases_to!(orig => x));
        let y = match x {
            JsArrayItem::Expr(z) => JsArrayItem::Expr(subst_expr(z, from, to)),
            JsArrayItem::Spread(z) => JsArrayItem::Spread(subst_expr(z, from, to)),
        };
        let ghost before = out@;
        out.push(y);
        proof {
            let s = orig.take(i + 1);
            assert(s.drop_last() =~= orig.take(i as int));
            assert(s.last() == orig[i as int]);
            assert(out@.drop_last() =~= before);
            assert(v@ =~= orig.skip(i + 1));
        }
    }
    assert(orig.take(n as int) =~= orig);
    out
}

#[verifier::loop_isolation(false)]
fn subst_object(v: Vec<JsObjectItem>, from: &str, to: &str) -> (r: Vec<JsObjectItem>)
    ensures subst_rel_object(v@, r@, from@, to@),
    decreases v@, 2nat,
{
    let ghost orig = v@;
    let mut v = v;
    let mut out: Vec<JsObjectItem> = Vec::new();
    let n = v.len();
    assert(orig.take(0) =~= Seq::<JsObjectItem>::empty());
    for i in 0..n
        invariant
            n == orig.len(),
            v@ == orig.skip(i as int),
            out@.len() == i,
            subst_rel_object(orig.take(i as int), out@, from@, to@),
    {
        let x = v.remove(0);
        assert(x == orig[i as int]);
        assert(decreases_to!(orig => orig[i as int]));
        assert(decreases_to!(orig => x));
        let y = match x {
            JsObjectItem::Shorthand(n) => {
                if str_eq(n.as_str(), from) {
                    JsObjectItem::Shorthand(owned(to))
                } else {
                    JsObjectItem::Shorthand(n)
                }
            },
            JsObjectItem::Prop(k, z) => JsObjectItem::Prop(k, subst_expr(z, from, to)),
            JsObjectItem::Spread(z) => JsObjectItem::Spread(subst_expr(z, from, to)),
        };
        let ghost before = out@;
        out.push(y);
        proof {
            let s = orig.take(i + 1);
            assert(s.drop_last() =~= orig.take(i as int));
            assert(s.last() == orig[i as int]);
            assert(out@.drop_last() =~= before);
            assert(v@ =~= orig.skip(i + 1));
        }
    }
    assert(orig.take(n as int) =~= orig);
    out
}

#[verifier::loop_isolation(false)]
fn subst_cases(v: Vec<SwitchCase>, from: &str, to: &str) -> (r: Vec<SwitchCase>)
    ensures subst_rel_cases(v@, r@, from@, to@),
    decreases v@, 2nat,
{
    let ghost orig = v@;
    let mut v = v;
    let mut out: Vec<SwitchCase> = Vec::new();
    let n = v.len();
    assert(orig.take(0) =~= Seq::<SwitchCase>::empty());
    for i in 0..n
        invariant
            n == orig.len(),
            v@ == orig.skip(i as int),
            out@.len() == i,
            subst_rel_cases(orig.take(i as int), out@, from@, to@),
    {
        let x = v.remove(0);
        assert(x == orig[i as int]);
        assert(decreases_to!(orig => orig[i as int]));
        assert(decreases_to!(orig => x));
        let SwitchCase { test, body } = x;
        let y = SwitchCase { test: subst_expr(test, from, to), body: subst_list(body, from, to) };
        let ghost before = out@;
        out.push(y);
        proof {
            let s = orig.take(i + 1);
            assert(s.drop_last() =~= orig.take(i as int));
            assert(s.last() == orig[i as int]);
            assert(out@.drop_last() =~= before);
            assert(v@ =~= orig.skip(i + 1));
        }
    }
    assert(orig.take(n as int) =~= orig);
    out
}

#[verifier::loop_isolation(false)]
fn subst_segments(v: Vec<JsAsyncSegment>, from: &str, to: &str) -> (r: Vec<JsAsyncSegment>)
    ensures subst_rel_segments(v@, r@, from@, to@),
    decreases v@, 2nat,
{
    let ghost orig = v@;
    let mut v = v;
    let mut out: Vec<JsAsyncSegment> = Vec::new();
    let n = v.len();
    assert(orig.take(0) =~= Seq::<JsAsyncSegment>::empty());
    for i in 0..n
        invariant
            n == orig.len(),
            v@ == orig.skip(i as int),
            out@.len() == i,
            subst_rel_segments(orig.take(i as int), out@, from@, to@),
    {
        let x = v.remove(0);
        assert(x == orig[i as int]);
        assert(decreases_to!(orig => orig[i as int]));
        assert(decreases_to!(orig => x));
        let JsAsyncSegment { stmts, await_expr, await_bind, await_completes } = x;
        let aw = match await_expr {
            Some(z) => Some(Box::new(subst_expr(*z, from, to))),
            None => None,
        };
        let y = JsAsyncSegment { stmts: subst_list(stmts, from, to), await_expr: aw, await_bind, await_completes };
        let ghost before = out@;
        out.push(y);
        proof {
            let s = orig.take(i + 1);
            assert(s.drop_last() =~= orig.take(i as int));
            assert(s.last() == orig[i as int]);
            assert(out@.drop_last() =~= before);
            assert(v@ =~= orig.skip(i + 1));
        }
    }
    assert(orig.take(n as int) =~= orig);
    out
}

#[verifier::loop_isolation(false)]
fn subst_props(v: Vec<(String, JsExpr)>, from: &str, to: &str) -> (r: Vec<(String, JsExpr)>)
    ensures subst_rel_props(v@, r@, from@, to@),
    decreases v@, 2nat,
{
    let ghost orig = v@;
    let mut v = v;
    let mut out: Vec<(String, JsExpr)> = Vec::new();
    let n = v.len();
    assert(orig.take(0) =~= Seq::<(String, JsExpr)>::empty());
    for i in 0..n
        invariant
            n == orig.len(),
            v@ == orig.skip(i as int),
            out@.len() == i,
            subst_rel_props(orig.take(i as int), out@, from@, to@),
    {
        let x = v.remove(0);
        assert(x == orig[i as int]);
        assert(decreases_to!(orig => orig[i as int]));
        assert(decreases_to!(orig => x));
        let (k, z) = x;
        let y = (k, subst_expr(z, from, to));
        let ghost before = out@;
        out.push(y);
        proof {
            let s = orig.take(i + 1);
            assert(s.drop_last() =~= orig.take(i as int));
            assert(s.last() == orig[i as int]);
            assert(out@.drop_last() =~= before);
            assert(v@ =~= orig.skip(i + 1));
        }
    }
    assert(orig.take(n as int) =~= orig);
    out
}

#[verifier::loop_isolation(false)]
fn subst_nodes(v: Vec<ReactNode>, from: &str, to: &str) -> (r: Vec<ReactNode>)
    ensures subst_rel_nodes(v@, r@, from@, to@),
    decreases v@, 2nat,
{
    let ghost orig = v@;
    let mut v = v;
    let mut out: Vec<ReactNode> = Vec::new();
    let n = v.len();
    assert(orig.take(0) =~= Seq::<ReactNode>::empty());
    for i in 0..n
        invariant
            n == orig.len(),
            v@ == orig.skip(i as int),
            out@.len() == i,
            subst_rel_nodes(orig.take(i as int), out@, from@, to@),
    {
        let x = v.remove(0);
        assert(x == orig[i as int]);
        assert(decreases_to!(orig => orig[i as int]));
        assert(decreases_to!(orig => x));
        let y = subst_node(x, from, to);
        let ghost before = out@;
        out.push(y);
        proof {
            let s = orig.take(i + 1);
            assert(s.drop_last() =~= orig.take(i as int));
            assert(s.last() == orig[i as int]);
            assert(out@.drop_last() =~= before);
            assert(v@ =~= orig.skip(i + 1));
        }
    }
    assert(orig.take(n as int) =~= orig);
    out
}
/// `e` with every read of `from` turned into a read of `to`; a catch block
/// whose parameter is `from` is left as it was.
pub fn subst_expr(e: JsExpr, from: &str, to: &str) -> (r: JsExpr)
    ensures subst_rel(e, r, from@, to@),
    decreases e, 4nat,
{
    match e {
        JsExpr::Var(v) => {
            if str_eq(v.as_str(), from) {
                JsExpr::Var(owned(to))
            } else {
                JsExpr::Var(v)
            }
        },
        JsExpr::Lit(l) => JsExpr::Lit(l),
        JsExpr::Builtin(b) => JsExpr::Builtin(b),
        JsExpr::Break => JsExpr::Break,
        JsExpr::Continue => JsExpr::Continue,
        JsExpr::Get { base, prop } => JsExpr::Get { base: Box::new(subst_expr(*base, from, to)), prop },
        JsExpr::Index { base, key } => JsExpr::Index {
            base: Box::new(subst_expr(*base, from, to)),
            key: Box::new(subst_expr(*key, from, to)),
        },
        JsExpr::Bin { op, left, right } => JsExpr::Bin {
            op,
            left: Box::new(subst_expr(*left, from, to)),
            right: Box::new(subst_expr(*right, from, to)),
        },
        JsExpr::Un { op, expr } => JsExpr::Un { op, expr: Box::new(subst_expr(*expr, from, to)) },
        JsExpr::Call { callee, args } => JsExpr::Call {
            callee: Box::new(subst_expr(*callee, from, to)),
            args: subst_list(args, from, to),
        },
        JsExpr::SpreadArg(x) => JsExpr::SpreadArg(Box::new(subst_expr(*x, from, to))),
        JsExpr::New { callee, args } => JsExpr::New {
            callee: Box::new(subst_expr(*callee, from, to)),
            args: subst_list(args, from, to),
        },
        JsExpr::Closure { params, captures, body } => JsExpr::Closure {
            params,
            captures,
            body: Box::new(subst_expr(*body, from, to)),
        },
        JsExpr::Array(items) => JsExpr::Array(subst_array(items, from, to)),
        JsExpr::Object(items) => JsExpr::Object(subst_object(items, from, to)),
        JsExpr::While { .. } => subst_while(e, from, to),
        JsExpr::Switch { .. } => subst_switch(e, from, to),
        JsExpr::Return(v) => match v {
            Some(x) => JsExpr::Return(Some(Box::new(subst_expr(*x, from, to)))),
            None => JsExpr::Return(None),
        },
        JsExpr::Update { inc, target, prefix } => JsExpr::Update {
            inc,
            target: Box::new(subst_expr(*target, from, to)),
            prefix,
        },
        JsExpr::Block(stmts) => JsExpr::Block(subst_list(stmts, from, to)),
        JsExpr::Assign { target, value } => JsExpr::Assign {
            target: Box::new(subst_expr(*target, from, to)),
            value: Box::new(subst_expr(*value, from, to)),
        },
        JsExpr::If { cond, then, else_ } => JsExpr::If {
            cond: Box::new(subst_expr(*cond, from, to)),
            then: Box::new(subst_expr(*then, from, to)),
            else_: Box::new(subst_expr(*else_, from, to)),
        },
        JsExpr::AsyncFn { params, segments } => JsExpr::AsyncFn {
            params,
            segments: subst_segments(segments, from, to),
        },
        JsExpr::Throw { value } => JsExpr::Throw { value: Box::new(subst_expr(*value, from, to)) },
        JsExpr::Try { .. } => subst_try(e, from, to),
        JsExpr::Children(nodes) => JsExpr::Children(subst_nodes(nodes, from, to)),
    }
}

fn subst_while(e: JsExpr, from: &str, to: &str) -> (r: JsExpr)
    requires e is While,
    ensures subst_rel(e, r, from@, to@),
    decreases e, 3nat,
{
    match e {
        JsExpr::While { cond, body, step } => {
            let s = match step {
                Some(x) => Some(Box::new(subst_expr(*x, from, to))),
                None => None,
            };
            JsExpr::While {
                cond: Box::new(subst_expr(*cond, from, to)),
                body: Box::new(subst_expr(*body, from, to)),
                step: s,
            }
        },
        _ => e,
    }
}

fn subst_switch(e: JsExpr, from: &str, to: &str) -> (r: JsExpr)
    requires e is Switch,
    ensures subst_rel(e, r, from@, to@),
    decreases e, 3nat,
{
    match e {
        JsExpr::Switch { disc, cases, default } => {
            let d = match default {
                Some(x) => Some(subst_list(x, from, to)),
                None => None,
            };
            JsExpr::Switch {
                disc: Box::new(subst_expr(*disc, from, to)),
                cases: subst_cases(cases, from, to),
                default: d,
            }
        },
        _ => e,
    }
}

fn subst_try(e: JsExpr, from: &str, to: &str) -> (r: JsExpr)
    requires e is Try,
    ensures subst_rel(e, r, from@, to@),
    decreases e, 3nat,
{
    match e {
        JsExpr::Try { block, catch_param, catch, finally } => {
            let shadowed = match &catch_param {
                Some(p) => str_eq(p.as_str(), from),
                None => false,
            };
            let c = if shadowed {
                catch
            } else {
                match catch {
                    Some(x) => Some(subst_list(x, from, to)),
                    None => None,
                }
            };
            let f = match finally {
                Some(x) => Some(subst_list(x, from, to)),
                None => None,
            };
            JsExpr::Try { block: subst_list(block, from, to), catch_param, catch: c, finally: f }
        },
        _ => e,
    }
}

/// The React node `n` with every read of `from` turned into a read of `to`.
pub fn subst_node(n: ReactNode, from: &str, to: &str) -> (r: ReactNode)
    ensures subst_node_rel(n, r, from@, to@),
    decreases n, 4nat,
{
    match n {
        ReactNode::Host { tag, props, children } => ReactNode::Host {
            tag,
            props: subst_props(props, from, to),
            children: subst_nodes(children, from, to),
        },
        ReactNode::Component { component, props } => ReactNode::Component {
            component,
            props: subst_props(props, from, to),
        },
        ReactNode::ComponentExpr { component, props } => ReactNode::ComponentExpr {
            component: subst_expr(component, from, to),
            props: subst_props(props, from, to),
        },
        ReactNode::If { cond, then, else_ } => ReactNode::If {
            cond: subst_expr(cond, from, to),
            then: Box::new(subst_node(*then, from, to)),
            else_: Box::new(subst_node(*else_, from, to)),
        },
        ReactNode::List { items, key_expr, item } => ReactNode::List {
            items: subst_expr(items, from, to),
            key_expr: subst_expr(key_expr, from, to),
            item: Box::new(subst_node(*item, from, to)),
        },
        ReactNode::ContextProvider { ctx, value, children } => ReactNode::ContextProvider {
            ctx: subst_expr(ctx, from, to),
            value: subst_expr(value, from, to),
            children: subst_nodes(children, from, to),
        },
        ReactNode::StrictMode { children } => ReactNode::StrictMode { children: subst_nodes(children, from, to) },
        ReactNode::Suspense { fallback, children } => ReactNode::Suspense {
            fallback: Box::new(subst_node(*fallback, from, to)),
            children: subst_nodes(children, from, to),
        },
        ReactNode::Portal { target, children } => ReactNode::Portal {
            target,
            children: subst_nodes(children, from, to),
        },
        ReactNode::Text(x) => ReactNode::Text(subst_expr(x, from, to)),
        ReactNode::Children => ReactNode::Children,
        ReactNode::Fragment { key, children } => {
            let k = match key {
                Some(x) => Some(subst_expr(x, from, to)),
                None => None,
            };
            ReactNode::Fragment { key: k, children: subst_nodes(children, from, to) }
        },
    }
}

} // verus!
