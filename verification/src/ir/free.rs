//! Free variables of JS IR expressions and React IR nodes: the names an
//! expression reads that are neither bound around it nor introduced inside
//! it, in the order of their first occurrence.

use vstd::prelude::*;
use crate::compiler::graph::contains_string;
use crate::compiler::link::views;
use crate::ir::js::{JsArrayItem, JsAsyncSegment, JsExpr, JsObjectItem, SwitchCase};
use crate::ir::react::ReactNode;
use crate::text::{lemma_text_lt_total, lemma_text_lt_transitive, owned, sorted_names, str_eq, text_less, text_lt};

verus! {

/// `acc` with the name `n` appended, unless `n` is bound or already there.
pub open spec fn note_name(acc: Seq<Seq<char>>, bound: Seq<Seq<char>>, n: Seq<char>) -> Seq<Seq<char>> {
    if bound.contains(n) || acc.contains(n) {
        acc
    } else {
        acc.push(n)
    }
}

/// `acc` followed by the free names of `e` (under the bound names `bound`)
/// that it does not hold yet, in the order the expression reads them.
/// Closure and async-function parameters are bound in their bodies, and a
/// catch parameter in its catch block.
pub open spec fn free_in(e: JsExpr, bound: Seq<Seq<char>>, acc: Seq<Seq<char>>) -> Seq<Seq<char>>
    decreases e, 3nat,
{
    match e {
        JsExpr::Var(v) => note_name(acc, bound, v@),
        JsExpr::Lit(_) => acc,
        JsExpr::Builtin(_) => acc,
        JsExpr::Children(nodes) => free_in_nodes(nodes@, bound, acc),
        JsExpr::Get { base, .. } => free_in(*base, bound, acc),
        JsExpr::Index { base, key } => free_in(*key, bound, free_in(*base, bound, acc)),
        JsExpr::Bin { left, right, .. } => free_in(*right, bound, free_in(*left, bound, acc)),
        JsExpr::Un { expr, .. } => free_in(*expr, bound, acc),
        JsExpr::Call { callee, args } => free_in_list(args@, bound, free_in(*callee, bound, acc)),
        JsExpr::New { callee, args } => free_in_list(args@, bound, free_in(*callee, bound, acc)),
        JsExpr::Closure { params, body, .. } => free_in(*body, bound + views(params@), acc),
        JsExpr::Array(items) => free_in_array(items@, bound, acc),
        JsExpr::Object(items) => free_in_object(items@, bound, acc),
        JsExpr::While { cond, body, step } => {
            let a = free_in(*body, bound, free_in(*cond, bound, acc));
            match step {
                Some(s) => free_in(*s, bound, a),
                None => a,
            }
        },
        JsExpr::Switch { disc, cases, default } => {
            let a = free_in_cases(cases@, bound, free_in(*disc, bound, acc));
            match default {
                Some(d) => free_in_list(d@, bound, a),
                None => a,
            }
        },
        JsExpr::Break => acc,
        JsExpr::Continue => acc,
        JsExpr::Return(v) => match v {
            Some(x) => free_in(*x, bound, acc),
            None => acc,
        },
        JsExpr::Update { target, .. } => free_in(*target, bound, acc),
        JsExpr::SpreadArg(x) => free_in(*x, bound, acc),
        JsExpr::Block(stmts) => free_in_list(stmts@, bound, acc),
        JsExpr::Assign { target, value } => free_in(*value, bound, free_in(*target, bound, acc)),
        JsExpr::If { cond, then, else_ } =>
            free_in(*else_, bound, free_in(*then, bound, free_in(*cond, bound, acc))),
        JsExpr::AsyncFn { params, segments } => free_in_segments(segments@, bound + views(params@), acc),
        JsExpr::Throw { value } => free_in(*value, bound, acc),
        JsExpr::Try { block, catch_param, catch, finally } => {
            let a = free_in_list(block@, bound, acc);
            let a2 = match catch {
                Some(c) => free_in_list(c@, catch_bound(bound, catch_param), a),
                None => a,
            };
            match finally {
                Some(f) => free_in_list(f@, bound, a2),
                None => a2,
            }
        },
    }
}

/// The names bound in a catch block: those bound around it and its parameter.
pub open spec fn catch_bound(bound: Seq<Seq<char>>, param: Option<String>) -> Seq<Seq<char>> {
    match param {
        Some(p) => bound.push(p@),
        None => bound,
    }
}

/// `free_in` over a list of expressions, first to last.
pub open spec fn free_in_list(s: Seq<JsExpr>, bound: Seq<Seq<char>>, acc: Seq<Seq<char>>) -> Seq<Seq<char>>
    decreases s, 2nat,
{
    if s.len() == 0 {
        acc
    } else {
        free_in(s.last(), bound, free_in_list(s.drop_last(), bound, acc))
    }
}

/// `free_in` over the items of an array literal.
pub open spec fn free_in_array(s: Seq<JsArrayItem>, bound: Seq<Seq<char>>, acc: Seq<Seq<char>>) -> Seq<Seq<char>>
    decreases s, 2nat,
{
    if s.len() == 0 {
        acc
    } else {
        let a = free_in_array(s.drop_last(), bound, acc);
        match s.last() {
            JsArrayItem::Expr(x) => free_in(x, bound, a),
            JsArrayItem::Spread(x) => free_in(x, bound, a),
        }
    }
}

/// `free_in` over the items of an object literal; a shorthand item reads its
/// name.
pub open spec fn free_in_object(s: Seq<JsObjectItem>, bound: Seq<Seq<char>>, acc: Seq<Seq<char>>) -> Seq<Seq<char>>
    decreases s, 2nat,
{
    if s.len() == 0 {
        acc
    } else {
        let a = free_in_object(s.drop_last(), bound, acc);
        match s.last() {
            JsObjectItem::Shorthand(n) => note_name(a, bound, n@),
            JsObjectItem::Prop(_, x) => free_in(x, bound, a),
            JsObjectItem::Spread(x) => free_in(x, bound, a),
        }
    }
}

/// `free_in` over the cases of a `switch`: each test, then its body.
pub open spec fn free_in_cases(s: Seq<SwitchCase>, bound: Seq<Seq<char>>, acc: Seq<Seq<char>>) -> Seq<Seq<char>>
    decreases s, 2nat,
{
    if s.len() == 0 {
        acc
    } else {
        let a = free_in_cases(s.drop_last(), bound, acc);
        free_in_list(s.last().body@, bound, free_in(s.last().test, bound, a))
    }
}

/// `free_in` over the segments of an async function: each segment's
/// statements, then its awaited expression.
pub open spec fn free_in_segments(s: Seq<JsAsyncSegment>, bound: Seq<Seq<char>>, acc: Seq<Seq<char>>) -> Seq<Seq<char>>
    decreases s, 2nat,
{
    if s.len() == 0 {
        acc
    } else {
        let a = free_in_list(s.last().stmts@, bound, free_in_segments(s.drop_last(), bound, acc));
        match s.last().await_expr {
            Some(x) => free_in(*x, bound, a),
            None => a,
        }
    }
}

/// `free_in` over the values of a list of props.
pub open spec fn free_in_props(s: Seq<(String, JsExpr)>, bound: Seq<Seq<char>>, acc: Seq<Seq<char>>) -> Seq<Seq<char>>
    decreases s, 2nat,
{
    if s.len() == 0 {
        acc
    } else {
        free_in(s.last().1, bound, free_in_props(s.drop_last(), bound, acc))
    }
}

/// `free_in` over a React node: its props, keys, conditions and children.
pub open spec fn free_in_node(n: ReactNode, bound: Seq<Seq<char>>, acc: Seq<Seq<char>>) -> Seq<Seq<char>>
    decreases n, 3nat,
{
    match n {
        ReactNode::Host { props, children, .. } => free_in_nodes(children@, bound, free_in_props(props@, bound, acc)),
        ReactNode::Component { props, .. } => free_in_props(props@, bound, acc),
        ReactNode::ComponentExpr { component, props } => free_in_props(props@, bound, free_in(component, bound, acc)),
        ReactNode::If { cond, then, else_ } =>
            free_in_node(*else_, bound, free_in_node(*then, bound, free_in(cond, bound, acc))),
        ReactNode::List { items, key_expr, item } =>
            free_in_node(*item, bound, free_in(key_expr, bound, free_in(items, bound, acc))),
        ReactNode::ContextProvider { ctx, value, children } =>
            free_in_nodes(children@, bound, free_in(value, bound, free_in(ctx, bound, acc))),
        ReactNode::StrictMode { children } => free_in_nodes(children@, bound, acc),
        ReactNode::Suspense { fallback, children } => free_in_nodes(children@, bound, free_in_node(*fallback, bound, acc)),
        ReactNode::Portal { children, .. } => free_in_nodes(children@, bound, acc),
        ReactNode::Text(x) => free_in(x, bound, acc),
        ReactNode::Children => acc,
        ReactNode::Fragment { key, children } => free_in_nodes(children@, bound, match key {
            Some(k) => free_in(k, bound, acc),
            None => acc,
        }),
    }
}

/// `free_in_node` over a list of nodes, first to last.
pub open spec fn free_in_nodes(s: Seq<ReactNode>, bound: Seq<Seq<char>>, acc: Seq<Seq<char>>) -> Seq<Seq<char>>
    decreases s, 2nat,
{
    if s.len() == 0 {
        acc
    } else {
        free_in_node(s.last(), bound, free_in_nodes(s.drop_last(), bound, acc))
    }
}

/// Append `name` to `out` unless it is bound or already there.
fn note_free(name: &String, bound: &Vec<String>, out: &mut Vec<String>)
    ensures views(final(out)@) == note_name(views(old(out)@), views(bound@), name@),
{
    let in_bound = contains_string(bound, name.as_str());
    let seen = contains_string(out, name.as_str());
    proof {
        if in_bound {
            let i = choose|i: int| 0 <= i < bound@.len() && #[trigger] bound@[i]@ == name@;
            assert(views(bound@)[i] == name@);
        }
        if views(bound@).contains(name@) {
            let i = choose|i: int| 0 <= i < views(bound@).len() && views(bound@)[i] == name@;
            assert(bound@[i]@ == name@);
        }
        if seen {
            let i = choose|i: int| 0 <= i < out@.len() && #[trigger] out@[i]@ == name@;
            assert(views(out@)[i] == name@);
        }
        if views(out@).contains(name@) {
            let i = choose|i: int| 0 <= i < views(out@).len() && views(out@)[i] == name@;
            assert(out@[i]@ == name@);
        }
    }
    if !in_bound && !seen {
        let ghost before = out@;
        out.push(owned(name.as_str()));
        assert(views(out@) =~= views(before).push(name@));
    }
}

/// `bound` followed by `names`, as a new list.
fn extend_bound(bound: &Vec<String>, names: &Vec<String>) -> (r: Vec<String>)
    ensures views(r@) == views(bound@) + views(names@),
{
    let mut r: Vec<String> = Vec::new();
    let n = bound.len();
    for i in 0..n
        invariant
            n == bound@.len(),
            views(r@) == views(bound@).take(i as int),
    {
        let ghost before = r@;
        r.push(owned(bound[i].as_str()));
        assert(views(r@) =~= views(before).push(bound@[i as int]@));
        assert(views(r@) =~= views(bound@).take(i + 1));
    }
    assert(views(bound@).take(n as int) =~= views(bound@));
    let m = names.len();
    for j in 0..m
        invariant
            m == names@.len(),
            views(r@) == views(bound@) + views(names@).take(j as int),
    {
        let ghost before = r@;
        r.push(owned(names[j].as_str()));
        assert(views(r@) =~= views(before).push(names@[j as int]@));
        assert(views(r@) =~= views(bound@) + views(names@).take(j + 1));
    }
    assert(views(names@).take(m as int) =~= views(names@));
    r
}

/// `bound` with the catch parameter, if any, as a new list.
fn catch_scope(bound: &Vec<String>, param: &Option<String>) -> (r: Vec<String>)
    ensures views(r@) == catch_bound(views(bound@), *param),
{
    let mut names: Vec<String> = Vec::new();
    match param {
        Some(p) => {
            names.push(owned(p.as_str()));
            assert(views(names@) =~= seq![p@]);
        },
        None => {
            assert(views(names@) =~= Seq::<Seq<char>>::empty());
        },
    }
    let r = extend_bound(bound, &names);
    assert(views(r@) =~= catch_bound(views(bound@), *param));
    r
}

/// Append to `out` the free names of `e` under the bound names `bound` that
/// it does not hold yet, in the order the expression reads them.
pub fn collect_free(e: &JsExpr, bound: &Vec<String>, out: &mut Vec<String>)
    ensures views(final(out)@) == free_in(*e, views(bound@), views(old(out)@)),
    decreases e, 4nat,
{
    match e {
        JsExpr::Var(v) => note_free(v, bound, out),
        JsExpr::Lit(_) => {},
        JsExpr::Builtin(_) => {},
        JsExpr::Children(nodes) => collect_free_nodes(nodes, bound, out),
        JsExpr::Get { base, .. } => collect_free(base, bound, out),
        JsExpr::Index { base, key } => {
            collect_free(base, bound, out);
            collect_free(key, bound, out);
        },
        JsExpr::Bin { left, right, .. } => {
            collect_free(left, bound, out);
            collect_free(right, bound, out);
        },
        JsExpr::Un { expr, .. } => collect_free(expr, bound, out),
        JsExpr::Call { callee, args } => {
            collect_free(callee, bound, out);
            collect_free_list(args, bound, out);
        },
        JsExpr::New { callee, args } => {
            collect_free(callee, bound, out);
            collect_free_list(args, bound, out);
        },
        JsExpr::Closure { params, body, .. } => {
            let inner = extend_bound(bound, params);
            collect_free(body, &inner, out);
        },
        JsExpr::Array(items) => collect_free_array(items, bound, out),
        JsExpr::Object(items) => collect_free_object(items, bound, out),
        JsExpr::While { .. } => collect_free_while(e, bound, out),
        JsExpr::Switch { .. } => collect_free_switch(e, bound, out),
        JsExpr::Break => {},
        JsExpr::Continue => {},
        JsExpr::Return(v) => match v {
            Some(x) => collect_free(x, bound, out),
            None => {},
        },
        JsExpr::Update { target, .. } => collect_free(target, bound, out),
        JsExpr::SpreadArg(x) => collect_free(x, bound, out),
        JsExpr::Block(stmts) => collect_free_list(stmts, bound, out),
        JsExpr::Assign { target, value } => {
            collect_free(target, bound, out);
            collect_free(value, bound, out);
        },
        JsExpr::If { cond, then, else_ } => {
            collect_free(cond, bound, out);
            collect_free(then, bound, out);
            collect_free(else_, bound, out);
        },
        JsExpr::AsyncFn { params, segments } => {
            let inner = extend_bound(bound, params);
            collect_free_segments(segments, &inner, out);
        },
        JsExpr::Throw { value } => collect_free(value, bound, out),
        JsExpr::Try { .. } => collect_free_try(e, bound, out),
    }
}

fn collect_free_while(e: &JsExpr, bound: &Vec<String>, out: &mut Vec<String>)
    requires *e is While,
    ensures views(final(out)@) == free_in(*e, views(bound@), views(old(out)@)),
    decreases e, 3nat,
{
    if let JsExpr::While { cond, body, step } = e {
        collect_free(cond, bound, out);
        collect_free(body, bound, out);
        match step {
            Some(s) => collect_free(s, bound, out),
            None => {},
        }
    }
}

fn collect_free_switch(e: &JsExpr, bound: &Vec<String>, out: &mut Vec<String>)
    requires *e is Switch,
    ensures views(final(out)@) == free_in(*e, views(bound@), views(old(out)@)),
    decreases e, 3nat,
{
    if let JsExpr::Switch { disc, cases, default } = e {
        collect_free(disc, bound, out);
        collect_free_cases(cases, bound, out);
        match default {
            Some(d) => collect_free_list(d, bound, out),
            None => {},
        }
    }
}

fn collect_free_try(e: &JsExpr, bound: &Vec<String>, out: &mut Vec<String>)
    requires *e is Try,
    ensures views(final(out)@) == free_in(*e, views(bound@), views(old(out)@)),
    decreases e, 3nat,
{
    if let JsExpr::Try { block, catch_param, catch, finally } = e {
        collect_free_list(block, bound, out);
        match catch {
            Some(c) => {
                let inner = catch_scope(bound, catch_param);
                collect_free_list(c, &inner, out);
            },
            None => {},
        }
        match finally {
            Some(f) => collect_free_list(f, bound, out),
            None => {},
        }
    }
}

/// `collect_free` over a list of expressions, first to last.
pub fn collect_free_list(v: &Vec<JsExpr>, bound: &Vec<String>, out: &mut Vec<String>)
    ensures views(final(out)@) == free_in_list(v@, views(bound@), views(old(out)@)),
    decreases v@, 2nat,
{
    let ghost start = views(out@);
    let n = v.len();
    assert(v@.take(0) =~= Seq::<JsExpr>::empty());
    for i in 0..n
        invariant
            n == v@.len(),
            views(out@) == free_in_list(v@.take(i as int), views(bound@), start),
    {
        assert(decreases_to!(v@ => v@[i as int]));
        collect_free(&v[i], bound, out);
        proof {
            let t = v@.take(i + 1);
            assert(t.drop_last() =~= v@.take(i as int));
            assert(t.last() == v@[i as int]);
        }
    }
    assert(v@.take(n as int) =~= v@);
}

fn collect_free_array(v: &Vec<JsArrayItem>, bound: &Vec<String>, out: &mut Vec<String>)
    ensures views(final(out)@) == free_in_array(v@, views(bound@), views(old(out)@)),
    decreases v@, 2nat,
{
    let ghost start = views(out@);
    let n = v.len();
    assert(v@.take(0) =~= Seq::<JsArrayItem>::empty());
    for i in 0..n
        invariant
            n == v@.len(),
            views(out@) == free_in_array(v@.take(i as int), views(bound@), start),
    {
        assert(decreases_to!(v@ => v@[i as int]));
        match &v[i] {
            JsArrayItem::Expr(x) => collect_free(x, bound, out),
            JsArrayItem::Spread(x) => collect_free(x, bound, out),
        }
        proof {
            let t = v@.take(i + 1);
            assert(t.drop_last() =~= v@.take(i as int));
            assert(t.last() == v@[i as int]);
        }
    }
    assert(v@.take(n as int) =~= v@);
}

fn collect_free_object(v: &Vec<JsObjectItem>, bound: &Vec<String>, out: &mut Vec<String>)
    ensures views(final(out)@) == free_in_object(v@, views(bound@), views(old(out)@)),
    decreases v@, 2nat,
{
    let ghost start = views(out@);
    let n = v.len();
    assert(v@.take(0) =~= Seq::<JsObjectItem>::empty());
    for i in 0..n
        invariant
            n == v@.len(),
            views(out@) == free_in_object(v@.take(i as int), views(bound@), start),
    {
        assert(decreases_to!(v@ => v@[i as int]));
        match &v[i] {
            JsObjectItem::Shorthand(name) => note_free(name, bound, out),
            JsObjectItem::Prop(_, x) => collect_free(x, bound, out),
            JsObjectItem::Spread(x) => collect_free(x, bound, out),
        }
        proof {
            let t = v@.take(i + 1);
            assert(t.drop_last() =~= v@.take(i as int));
            assert(t.last() == v@[i as int]);
        }
    }
    assert(v@.take(n as int) =~= v@);
}

fn collect_free_cases(v: &Vec<SwitchCase>, bound: &Vec<String>, out: &mut Vec<String>)
    ensures views(final(out)@) == free_in_cases(v@, views(bound@), views(old(out)@)),
    decreases v@, 2nat,
{
    let ghost start = views(out@);
    let n = v.len();
    assert(v@.take(0) =~= Seq::<SwitchCase>::empty());
    for i in 0..n
        invariant
            n == v@.len(),
            views(out@) == free_in_cases(v@.take(i as int), views(bound@), start),
    {
        assert(decreases_to!(v@ => v@[i as int]));
        let c = &v[i];
        collect_free(&c.test, bound, out);
        collect_free_list(&c.body, bound, out);
        proof {
            let t = v@.take(i + 1);
            assert(t.drop_last() =~= v@.take(i as int));
            assert(t.last() == v@[i as int]);
        }
    }
    assert(v@.take(n as int) =~= v@);
}

fn collect_free_segments(v: &Vec<JsAsyncSegment>, bound: &Vec<String>, out: &mut Vec<String>)
    ensures views(final(out)@) == free_in_segments(v@, views(bound@), views(old(out)@)),
    decreases v@, 2nat,
{
    let ghost start = views(out@);
    let n = v.len();
    assert(v@.take(0) =~= Seq::<JsAsyncSegment>::empty());
    for i in 0..n
        invariant
            n == v@.len(),
            views(out@) == free_in_segments(v@.take(i as int), views(bound@), start),
    {
        assert(decreases_to!(v@ => v@[i as int]));
        let sg = &v[i];
        collect_free_list(&sg.stmts, bound, out);
        match &sg.await_expr {
            Some(x) => collect_free(x, bound, out),
            None => {},
        }
        proof {
            let t = v@.take(i + 1);
            assert(t.drop_last() =~= v@.take(i as int));
            assert(t.last() == v@[i as int]);
        }
    }
    assert(v@.take(n as int) =~= v@);
}

fn collect_free_props(v: &Vec<(String, JsExpr)>, bound: &Vec<String>, out: &mut Vec<String>)
    ensures views(final(out)@) == free_in_props(v@, views(bound@), views(old(out)@)),
    decreases v@, 2nat,
{
    let ghost start = views(out@);
    let n = v.len();
    assert(v@.take(0) =~= Seq::<(String, JsExpr)>::empty());
    for i in 0..n
        invariant
            n == v@.len(),
            views(out@) == free_in_props(v@.take(i as int), views(bound@), start),
    {
        assert(decreases_to!(v@ => v@[i as int]));
        collect_free(&v[i].1, bound, out);
        proof {
            let t = v@.take(i + 1);
            assert(t.drop_last() =~= v@.take(i as int));
            assert(t.last() == v@[i as int]);
        }
    }
    assert(v@.take(n as int) =~= v@);
}

/// `collect_free` over a React node: its props, keys, conditions and
/// children.
pub fn collect_free_node(n: &ReactNode, bound: &Vec<String>, out: &mut Vec<String>)
    ensures views(final(out)@) == free_in_node(*n, views(bound@), views(old(out)@)),
    decreases n, 4nat,
{
    match n {
        ReactNode::Host { props, children, .. } => {
            collect_free_props(props, bound, out);
            collect_free_nodes(children, bound, out);
        },
        ReactNode::Component { props, .. } => collect_free_props(props, bound, out),
        ReactNode::ComponentExpr { component, props } => {
            collect_free(component, bound, out);
            collect_free_props(props, bound, out);
        },
        ReactNode::If { cond, then, else_ } => {
            collect_free(cond, bound, out);
            collect_free_node(then, bound, out);
            collect_free_node(else_, bound, out);
        },
        ReactNode::List { items, key_expr, item } => {
            collect_free(items, bound, out);
            collect_free(key_expr, bound, out);
            collect_free_node(item, bound, out);
        },
        ReactNode::ContextProvider { ctx, value, children } => {
            collect_free(ctx, bound, out);
            collect_free(value, bound, out);
            collect_free_nodes(children, bound, out);
        },
        ReactNode::StrictMode { children } => collect_free_nodes(children, bound, out),
        ReactNode::Suspense { fallback, children } => {
            collect_free_node(fallback, bound, out);
            collect_free_nodes(children, bound, out);
        },
        ReactNode::Portal { children, .. } => collect_free_nodes(children, bound, out),
        ReactNode::Text(x) => collect_free(x, bound, out),
        ReactNode::Children => {},
        ReactNode::Fragment { key, children } => {
            match key {
                Some(k) => collect_free(k, bound, out),
                None => {},
            }
            collect_free_nodes(children, bound, out);
        },
    }
}

fn collect_free_nodes(v: &Vec<ReactNode>, bound: &Vec<String>, out: &mut Vec<String>)
    ensures views(final(out)@) == free_in_nodes(v@, views(bound@), views(old(out)@)),
    decreases v@, 2nat,
{
    let ghost start = views(out@);
    let n = v.len();
    assert(v@.take(0) =~= Seq::<ReactNode>::empty());
    for i in 0..n
        invariant
            n == v@.len(),
            views(out@) == free_in_nodes(v@.take(i as int), views(bound@), start),
    {
        assert(decreases_to!(v@ => v@[i as int]));
        collect_free_node(&v[i], bound, out);
        proof {
            let t = v@.take(i + 1);
            assert(t.drop_last() =~= v@.take(i as int));
            assert(t.last() == v@[i as int]);
        }
    }
    assert(v@.take(n as int) =~= v@);
}

/// Insert `name` into the ascending list `out` unless it is there already.
fn insert_sorted(out: &mut Vec<String>, name: &String)
    requires sorted_names(views(old(out)@)),
    ensures
        sorted_names(views(final(out)@)),
        forall|x: Seq<char>| views(final(out)@).contains(x) <==> (views(old(out)@).contains(x) || x == name@),
{
    let ghost old_views = views(out@);
    let n = out.len();
    let mut k: usize = 0;
    while k < n && text_less(out[k].as_str(), name.as_str())
        invariant
            n == out@.len(),
            k <= n,
            out@ == old(out)@,
            forall|i: int| 0 <= i < k ==> text_lt(#[trigger] views(out@)[i], name@),
        decreases n - k,
    {
        k = k + 1;
    }
    if k < n && str_eq(out[k].as_str(), name.as_str()) {
        proof {
            assert(views(out@)[k as int] == name@);
        }
        return;
    }
    proof {
        if k < n {
            assert(views(out@)[k as int] != name@);
            lemma_text_lt_total(views(out@)[k as int], name@);
        }
    }
    out.insert(k, owned(name.as_str()));
    proof {
        let v = views(out@);
        assert(v =~= old_views.insert(k as int, name@));
        assert forall|i: int, j: int| 0 <= i < j < v.len() implies text_lt(#[trigger] v[i], #[trigger] v[j]) by {
            if j < k {
                assert(v[i] == old_views[i] && v[j] == old_views[j]);
            } else if j == k {
                assert(v[i] == old_views[i]);
            } else if i < k {
                assert(v[i] == old_views[i] && v[j] == old_views[j - 1]);
                assert(text_lt(old_views[k as int], old_views[j - 1]) || k == j - 1);
                lemma_text_lt_transitive(old_views[i], name@, old_views[k as int]);
                if k < j - 1 {
                    lemma_text_lt_transitive(old_views[i], old_views[k as int], old_views[j - 1]);
                }
            } else if i == k {
                assert(v[j] == old_views[j - 1]);
                if k < j - 1 {
                    lemma_text_lt_transitive(name@, old_views[k as int], old_views[j - 1]);
                }
            } else {
                assert(v[i] == old_views[i - 1] && v[j] == old_views[j - 1]);
            }
        }
        assert forall|x: Seq<char>| v.contains(x) <==> (old_views.contains(x) || x == name@) by {
            if v.contains(x) {
                let i = choose|i: int| 0 <= i < v.len() && v[i] == x;
                if i < k {
                    assert(old_views[i] == x);
                } else if i > k {
                    assert(old_views[i - 1] == x);
                }
            }
            if old_views.contains(x) {
                let i = choose|i: int| 0 <= i < old_views.len() && old_views[i] == x;
                if i < k {
                    assert(v[i] == x);
                } else {
                    assert(v[i + 1] == x);
                }
            }
            if x == name@ {
                assert(v[k as int] == x);
            }
        }
    }
}

/// The bound names and free names after the bindings `bs` (each value read
/// with the names bound before it), starting from the free names `acc`.
pub open spec fn bindings_free(bs: Seq<(String, JsExpr)>, acc: Seq<Seq<char>>) -> (Seq<Seq<char>>, Seq<Seq<char>>)
    decreases bs.len(),
{
    if bs.len() == 0 {
        (Seq::empty(), acc)
    } else {
        let (bound, a) = bindings_free(bs.drop_last(), acc);
        (bound.push(bs.last().0@), free_in(bs.last().1, bound, a))
    }
}

/// The names a component body reads from outside: the free names of each
/// binding's value (under the bindings before it) and of the rendered node
/// (under all of them).
pub open spec fn body_free(bs: Seq<(String, JsExpr)>, body: ReactNode) -> Seq<Seq<char>> {
    let (bound, a) = bindings_free(bs, Seq::empty());
    free_in_node(body, bound, a)
}

/// The names a component body reads from outside (`body_free`), sorted
/// ascending, each once.
pub fn free_vars_of_body(bindings: &[(String, JsExpr)], body: &ReactNode) -> (r: Vec<String>)
    ensures
        sorted_names(views(r@)),
        forall|x: Seq<char>| views(r@).contains(x) <==> body_free(bindings@, *body).contains(x),
{
    let mut bound: Vec<String> = Vec::new();
    let mut free: Vec<String> = Vec::new();
    let n = bindings.len();
    assert(bindings@.take(0) =~= Seq::<(String, JsExpr)>::empty());
    for i in 0..n
        invariant
            n == bindings@.len(),
            (views(bound@), views(free@)) == bindings_free(bindings@.take(i as int), Seq::empty()),
    {
        let ghost t = bindings@.take(i + 1);
        proof {
            assert(t.drop_last() =~= bindings@.take(i as int));
            assert(t.last() == bindings@[i as int]);
        }
        collect_free(&bindings[i].1, &bound, &mut free);
        let ghost before = bound@;
        bound.push(owned(bindings[i].0.as_str()));
        assert(views(bound@) =~= views(before).push(bindings@[i as int].0@));
    }
    assert(bindings@.take(n as int) =~= bindings@);
    collect_free_node(body, &bound, &mut free);
    let mut sorted: Vec<String> = Vec::new();
    let m = free.len();
    for j in 0..m
        invariant
            m == free@.len(),
            views(free@) == body_free(bindings@, *body),
            sorted_names(views(sorted@)),
            forall|x: Seq<char>| views(sorted@).contains(x) <==> views(free@).take(j as int).contains(x),
    {
        let ghost prev = views(free@).take(j as int);
        insert_sorted(&mut sorted, &free[j]);
        proof {
            let next = views(free@).take(j + 1);
            assert(next =~= prev.push(free@[j as int]@));
            assert forall|x: Seq<char>| next.contains(x) <==> (prev.contains(x) || x == free@[j as int]@) by {
                if next.contains(x) {
                    let q = choose|q: int| 0 <= q < next.len() && next[q] == x;
                    if q < j {
                        assert(prev[q] == x);
                    }
                }
                if prev.contains(x) {
                    let q = choose|q: int| 0 <= q < prev.len() && prev[q] == x;
                    assert(next[q] == x);
                }
                if x == free@[j as int]@ {
                    assert(next[j as int] == x);
                }
            }
        }
    }
    assert(views(free@).take(m as int) =~= views(free@));
    sorted
}

} // verus!
