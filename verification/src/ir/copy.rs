//! Copies of JS IR expressions and React IR nodes.

use vstd::prelude::*;
use crate::ir::js::{JsArrayItem, JsAsyncSegment, JsExpr, JsObjectItem, SwitchCase};
use crate::ir::react::ReactNode;
use crate::text::owned;

verus! {

#[verifier::loop_isolation(false)]
fn copy_list(v: &Vec<JsExpr>) -> Vec<JsExpr>
    decreases v@, 2nat,
{
    let mut r: Vec<JsExpr> = Vec::new();
    let n = v.len();
    for i in 0..n
        invariant
            n == v@.len(),
    {
        assert(decreases_to!(v@ => v@[i as int]));
        let x = copy_js(&v[i]);
        r.push(x);
    }
    r
}

#[verifier::loop_isolation(false)]
fn copy_array(v: &Vec<JsArrayItem>) -> Vec<JsArrayItem>
    decreases v@, 2nat,
{
    let mut r: Vec<JsArrayItem> = Vec::new();
    let n = v.len();
    for i in 0..n
        invariant
            n == v@.len(),
    {
        assert(decreases_to!(v@ => v@[i as int]));
        let x = match &v[i] { JsArrayItem::Expr(x) => JsArrayItem::Expr(copy_js(x)), JsArrayItem::Spread(x) => JsArrayItem::Spread(copy_js(x)) };
        r.push(x);
    }
    r
}

#[verifier::loop_isolation(false)]
fn copy_object(v: &Vec<JsObjectItem>) -> Vec<JsObjectItem>
    decreases v@, 2nat,
{
    let mut r: Vec<JsObjectItem> = Vec::new();
    let n = v.len();
    for i in 0..n
        invariant
            n == v@.len(),
    {
        assert(decreases_to!(v@ => v@[i as int]));
        let x = match &v[i] { JsObjectItem::Shorthand(n) => JsObjectItem::Shorthand(owned(n.as_str())), JsObjectItem::Prop(k, x) => JsObjectItem::Prop(owned(k.as_str()), copy_js(x)), JsObjectItem::Spread(x) => JsObjectItem::Spread(copy_js(x)) };
        r.push(x);
    }
    r
}

#[verifier::loop_isolation(false)]
fn copy_cases(v: &Vec<SwitchCase>) -> Vec<SwitchCase>
    decreases v@, 2nat,
{
    let mut r: Vec<SwitchCase> = Vec::new();
    let n = v.len();
    for i in 0..n
        invariant
            n == v@.len(),
    {
        assert(decreases_to!(v@ => v@[i as int]));
        let x = SwitchCase { test: copy_js(&v[i].test), body: copy_list(&v[i].body) };
        r.push(x);
    }
    r
}

#[verifier::loop_isolation(false)]
fn copy_segments(v: &Vec<JsAsyncSegment>) -> Vec<JsAsyncSegment>
    decreases v@, 2nat,
{
    let mut r: Vec<JsAsyncSegment> = Vec::new();
    let n = v.len();
    for i in 0..n
        invariant
            n == v@.len(),
    {
        assert(decreases_to!(v@ => v@[i as int]));
        let x = JsAsyncSegment { stmts: copy_list(&v[i].stmts), await_expr: copy_opt_box(&v[i].await_expr), await_bind: copy_opt_name(&v[i].await_bind), await_completes: v[i].await_completes };
        r.push(x);
    }
    r
}

#[verifier::loop_isolation(false)]
fn copy_props(v: &Vec<(String, JsExpr)>) -> Vec<(String, JsExpr)>
    decreases v@, 2nat,
{
    let mut r: Vec<(String, JsExpr)> = Vec::new();
    let n = v.len();
    for i in 0..n
        invariant
            n == v@.len(),
    {
        assert(decreases_to!(v@ => v@[i as int]));
        let x = (owned(v[i].0.as_str()), copy_js(&v[i].1));
        r.push(x);
    }
    r
}

#[verifier::loop_isolation(false)]
fn copy_nodes(v: &Vec<ReactNode>) -> Vec<ReactNode>
    decreases v@, 2nat,
{
    let mut r: Vec<ReactNode> = Vec::new();
    let n = v.len();
    for i in 0..n
        invariant
            n == v@.len(),
    {
        assert(decreases_to!(v@ => v@[i as int]));
        let x = copy_node(&v[i]);
        r.push(x);
    }
    r
}

#[verifier::loop_isolation(false)]
fn copy_names(v: &Vec<String>) -> Vec<String>
{
    let mut r: Vec<String> = Vec::new();
    let n = v.len();
    for i in 0..n
        invariant
            n == v@.len(),
    {
        let x = owned(v[i].as_str());
        r.push(x);
    }
    r
}

fn copy_opt_name(o: &Option<String>) -> Option<String> {
    match o {
        Some(x) => Some(owned(x.as_str())),
        None => None,
    }
}

fn copy_opt_box(o: &Option<Box<JsExpr>>) -> Option<Box<JsExpr>>
    decreases o, 2nat,
{
    match o {
        Some(x) => Some(Box::new(copy_js(x))),
        None => None,
    }
}

fn copy_opt_list(o: &Option<Vec<JsExpr>>) -> Option<Vec<JsExpr>>
    decreases o, 2nat,
{
    match o {
        Some(x) => Some(copy_list(x)),
        None => None,
    }
}

/// A copy of an expression.
pub fn copy_js(e: &JsExpr) -> JsExpr
    decreases e, 3nat,
{
    match e {
        JsExpr::Lit(l) => JsExpr::Lit(l.duplicate()),
        JsExpr::Var(v) => JsExpr::Var(owned(v.as_str())),
        JsExpr::Get { base, prop } => JsExpr::Get { base: Box::new(copy_js(base)), prop: owned(prop.as_str()) },
        JsExpr::Index { base, key } => JsExpr::Index { base: Box::new(copy_js(base)), key: Box::new(copy_js(key)) },
        JsExpr::Bin { op, left, right } => JsExpr::Bin { op: *op, left: Box::new(copy_js(left)), right: Box::new(copy_js(right)) },
        JsExpr::Un { op, expr } => JsExpr::Un { op: *op, expr: Box::new(copy_js(expr)) },
        JsExpr::Call { callee, args } => JsExpr::Call { callee: Box::new(copy_js(callee)), args: copy_list(args) },
        JsExpr::SpreadArg(x) => JsExpr::SpreadArg(Box::new(copy_js(x))),
        JsExpr::New { callee, args } => JsExpr::New { callee: Box::new(copy_js(callee)), args: copy_list(args) },
        JsExpr::Closure { params, captures, body } => JsExpr::Closure {
            params: copy_names(params),
            captures: copy_names(captures),
            body: Box::new(copy_js(body)),
        },
        JsExpr::Array(items) => JsExpr::Array(copy_array(items)),
        JsExpr::Object(items) => JsExpr::Object(copy_object(items)),
        JsExpr::While { cond, body, step } => JsExpr::While {
            cond: Box::new(copy_js(cond)),
            body: Box::new(copy_js(body)),
            step: copy_opt_box(step),
        },
        JsExpr::Switch { disc, cases, default } => JsExpr::Switch {
            disc: Box::new(copy_js(disc)),
            cases: copy_cases(cases),
            default: copy_opt_list(default),
        },
        JsExpr::Break => JsExpr::Break,
        JsExpr::Continue => JsExpr::Continue,
        JsExpr::Return(v) => JsExpr::Return(copy_opt_box(v)),
        JsExpr::Update { inc, target, prefix } => JsExpr::Update { inc: *inc, target: Box::new(copy_js(target)), prefix: *prefix },
        JsExpr::Block(stmts) => JsExpr::Block(copy_list(stmts)),
        JsExpr::Assign { target, value } => JsExpr::Assign { target: Box::new(copy_js(target)), value: Box::new(copy_js(value)) },
        JsExpr::If { cond, then, else_ } => JsExpr::If {
            cond: Box::new(copy_js(cond)),
            then: Box::new(copy_js(then)),
            else_: Box::new(copy_js(else_)),
        },
        JsExpr::AsyncFn { params, segments } => JsExpr::AsyncFn { params: copy_names(params), segments: copy_segments(segments) },
        JsExpr::Throw { value } => JsExpr::Throw { value: Box::new(copy_js(value)) },
        JsExpr::Try { block, catch_param, catch, finally } => JsExpr::Try {
            block: copy_list(block),
            catch_param: copy_opt_name(catch_param),
            catch: copy_opt_list(catch),
            finally: copy_opt_list(finally),
        },
        JsExpr::Builtin(b) => JsExpr::Builtin(owned(b.as_str())),
        JsExpr::Children(nodes) => JsExpr::Children(copy_nodes(nodes)),
    }
}

/// A copy of a node.
pub fn copy_node(n: &ReactNode) -> ReactNode
    decreases n, 3nat,
{
    match n {
        ReactNode::Host { tag, props, children } => ReactNode::Host {
            tag: owned(tag.as_str()),
            props: copy_props(props),
            children: copy_nodes(children),
        },
        ReactNode::Component { component, props } => ReactNode::Component { component: *component, props: copy_props(props) },
        ReactNode::ComponentExpr { component, props } => ReactNode::ComponentExpr {
            component: copy_js(component),
            props: copy_props(props),
        },
        ReactNode::If { cond, then, else_ } => ReactNode::If {
            cond: copy_js(cond),
            then: Box::new(copy_node(then)),
            else_: Box::new(copy_node(else_)),
        },
        ReactNode::List { items, key_expr, item } => ReactNode::List {
            items: copy_js(items),
            key_expr: copy_js(key_expr),
            item: Box::new(copy_node(item)),
        },
        ReactNode::ContextProvider { ctx, value, children } => ReactNode::ContextProvider {
            ctx: copy_js(ctx),
            value: copy_js(value),
            children: copy_nodes(children),
        },
        ReactNode::StrictMode { children } => ReactNode::StrictMode { children: copy_nodes(children) },
        ReactNode::Suspense { fallback, children } => ReactNode::Suspense {
            fallback: Box::new(copy_node(fallback)),
            children: copy_nodes(children),
        },
        ReactNode::Portal { target, children } => ReactNode::Portal { target: owned(target.as_str()), children: copy_nodes(children) },
        ReactNode::Text(x) => ReactNode::Text(copy_js(x)),
        ReactNode::Children => ReactNode::Children,
        ReactNode::Fragment { key, children } => ReactNode::Fragment {
            key: match key {
                Some(k) => Some(copy_js(k)),
                None => None,
            },
            children: copy_nodes(children),
        },
    }
}

} // verus!
