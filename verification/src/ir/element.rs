//! Lowering JSX elements and render positions to the React IR.
//!
//! A fragment `<>` takes only a `key`; `<StrictMode>`, `<Suspense
//! fallback={..}>`, `<Portal target="..">` and `<X.Provider value={..}>` are
//! special tags; a component tag names a component of the table (`index`),
//! a local holding a component, or a member of a local (`<ns.X/>`); any
//! other tag is a host element, whose sole child `xs.map(x => <el/>)` renders
//! as a keyed list. In a render position a ternary renders one of two nodes,
//! `cond && <el/>` or `cond || <el/>` renders the node or nothing,
//! `children` is where a component's children go, and any other value
//! renders as text.

use vstd::prelude::*;
use crate::ast::expr::{CallArg, Element, Expr, Prop};
use crate::ast::lit::Literal;
use crate::ast::op::BinOp;
use crate::ast::program::Pattern;
use crate::compiler::assoc::{assoc_find, assoc_get};
use crate::compiler::graph::contains_string;
use crate::ir::copy::copy_js;
use crate::ir::js::JsExpr;
use crate::ir::lower::LowerError;
use crate::ir::lowering::{lower_expr, lowerable, lowered};
use crate::ir::react::{ComponentRef, ReactNode};
use crate::ir::shape::{is_renderable_expr, is_short_circuit_render, renders_node, short_circuit_render};
use crate::ir::subst::{subst_expr, subst_node};
use crate::text::{chars_of, owned, str_eq, string_from_chars};

verus! {

/// The position of the last `.` of a tag, if it has one.
pub open spec fn last_dot(t: Seq<char>) -> Option<int>
    decreases t.len(),
{
    if t.len() == 0 {
        None
    } else if t.last() == '.' {
        Some(t.len() - 1)
    } else {
        last_dot(t.drop_last())
    }
}

/// A node that a function component may render at its root.
pub open spec fn root_node(n: ReactNode) -> bool {
    n is Host || n is Component || n is ComponentExpr || n is If || n is List || n is Fragment
        || n is ContextProvider || n is Portal || n is Suspense || n is StrictMode
}

/// A node that a class component may render at its root.
pub open spec fn class_root_node(n: ReactNode) -> bool {
    n is Host || n is Component || n is ComponentExpr || n is If || n is List || n is Fragment
        || n is ContextProvider
}

/// A tag whose element a class component may render at its root.
pub open spec fn class_root_tag(t: Seq<char>) -> bool {
    t != "StrictMode"@ && t != "Suspense"@ && t != "Portal"@
}

/// An expression that renders a node a function component may return.
pub open spec fn renders_root(e: Expr) -> bool {
    e is Element || e is Ternary
}

/// An expression that renders a node a class component may return.
pub open spec fn renders_class_root(e: Expr) -> bool {
    match e {
        Expr::Element(el) => class_root_tag(el.tag@),
        Expr::Ternary { .. } => true,
        _ => false,
    }
}

/// Some name of `s` is `n`.
pub open spec fn names_contain(s: Seq<String>, n: Seq<char>) -> bool {
    exists|i: int| 0 <= i < s.len() && #[trigger] s[i]@ == n
}

/// A tag `Base.Provider` with a non-empty base: a context provider.
pub open spec fn provider_tag(t: Seq<char>) -> bool {
    last_dot(t) matches Some(k) && k > 0 && t.subrange(k + 1, t.len() as int) == "Provider"@
}

/// A component tag that resolves: `base.member` with `base` a local, or a
/// plain name of the component table or a local.
pub open spec fn component_known(t: Seq<char>, index: Seq<(String, usize)>, locals: Seq<String>) -> bool {
    match last_dot(t) {
        Some(k) => k > 0 && names_contain(locals, t.subrange(0, k)),
        None => assoc_get(index, t) is Some || names_contain(locals, t),
    }
}

/// Some prop of the list is named `n`.
pub open spec fn has_prop(ps: Seq<Prop>, n: Seq<char>) -> bool {
    exists|i: int| 0 <= i < ps.len() && #[trigger] ps[i].name@ == n
}

/// Every `target` prop of a portal is a string literal.
pub open spec fn portal_props_ok(ps: Seq<Prop>) -> bool {
    forall|i: int| 0 <= i < ps.len() && (#[trigger] ps[i]).name@ == "target"@
        ==> (ps[i].value matches Some(v) && v matches Expr::Literal(Literal::String(_)))
}

/// The text of a portal's last `target` prop (empty when it has none).
pub open spec fn portal_target(ps: Seq<Prop>) -> Seq<char>
    decreases ps.len(),
{
    if ps.len() == 0 {
        Seq::empty()
    } else if ps.last().name@ == "target"@ {
        match ps.last().value {
            Some(Expr::Literal(Literal::String(s))) => s@,
            _ => Seq::empty(),
        }
    } else {
        portal_target(ps.drop_last())
    }
}

/// `e` is `base.map(arrow)` with an arrow whose body is an element.
pub open spec fn list_form(e: Expr) -> bool {
    e matches Expr::Call { callee, args } && args@.len() == 1 && (*callee matches Expr::Member { prop, .. }
        && prop@ == "map"@) && (args@[0] matches CallArg::Expr(Expr::Arrow { body, .. }) && *body is Element)
}

/// An element lowers.
pub open spec fn element_ok(el: Element, index: Seq<(String, usize)>, locals: Seq<String>) -> bool
    decreases el, 6nat,
{
    let t = el.tag@;
    if t.len() == 0 {
        fragment_props_ok(el.props@) && children_ok(el.children@, index, locals)
    } else if t == "StrictMode"@ {
        children_ok(el.children@, index, locals)
    } else if t == "Suspense"@ {
        fallback_props_ok(el.props@, index, locals) && has_prop(el.props@, "fallback"@)
            && children_ok(el.children@, index, locals)
    } else if t == "Portal"@ {
        portal_props_ok(el.props@) && portal_target(el.props@).len() > 0 && children_ok(el.children@, index, locals)
    } else if provider_tag(t) {
        value_props_ok(el.props@) && children_ok(el.children@, index, locals)
    } else if el.is_component {
        props_lowerable(el.props@) && children_ok(el.children@, index, locals) && component_known(t, index, locals)
    } else if el.children@.len() == 1 && list_form(el.children@[0]) {
        list_ok(el.children@[0], index, locals) && props_lowerable(el.props@)
    } else {
        props_lowerable(el.props@) && children_ok(el.children@, index, locals)
    }
}

/// A fragment prop is `key`, with a value that lowers.
pub open spec fn fragment_prop_ok(p: Prop) -> bool
    decreases p, 5nat,
{
    p.name@ == "key"@ && match p.value {
        Some(v) => lowerable(v),
        None => true,
    }
}

/// A `fallback` prop has a value that renders.
pub open spec fn fallback_prop_ok(p: Prop, index: Seq<(String, usize)>, locals: Seq<String>) -> bool
    decreases p, 5nat,
{
    p.name@ == "fallback"@ ==> match p.value {
        Some(v) => renderable_ok(v, index, locals),
        None => false,
    }
}

/// A provider's `value` prop lowers.
pub open spec fn value_prop_ok(p: Prop) -> bool
    decreases p, 5nat,
{
    p.name@ == "value"@ ==> match p.value {
        Some(v) => lowerable(v),
        None => true,
    }
}

/// A prop's value lowers.
pub open spec fn prop_lowerable(p: Prop) -> bool
    decreases p, 5nat,
{
    match p.value {
        Some(v) => lowerable(v),
        None => true,
    }
}

/// A list-form child lowers: its item element and the list it maps.
pub open spec fn list_ok(e: Expr, index: Seq<(String, usize)>, locals: Seq<String>) -> bool
    decreases e, 6nat,
{
    match e {
        Expr::Call { callee, args } => (args@.len() > 0 ==> item_arg_ok(args@[0], index, locals)) && match *callee {
            Expr::Member { base, .. } => lowerable(*base),
            _ => true,
        },
        _ => true,
    }
}

/// The element a list-form child maps each item to renders.
pub open spec fn item_arg_ok(a: CallArg, index: Seq<(String, usize)>, locals: Seq<String>) -> bool
    decreases a, 5nat,
{
    match a {
        CallArg::Expr(Expr::Arrow { body, .. }) => renderable_ok(*body, index, locals),
        _ => true,
    }
}

/// A short-circuit render lowers: the rendering side (the left one unless
/// only the right one renders) and the condition.
pub open spec fn short_ok(e: Expr, index: Seq<(String, usize)>, locals: Seq<String>) -> bool
    decreases e, 6nat,
{
    match e {
        Expr::Binary { left, right, .. } => if renders_node(*left) && !renders_node(*right) {
            renderable_ok(*left, index, locals) && lowerable(*right)
        } else {
            renderable_ok(*right, index, locals) && lowerable(*left)
        },
        _ => true,
    }
}

/// `n` is the node the element `el` lowers to: a fragment, a `StrictMode`,
/// `Suspense` or `Portal` wrapper or a context provider around its lowered
/// children; a host element of the same tag with its attributes lowered in
/// order, around its lowered children (a keyed-list child becomes its one
/// child). A component element is described by its kind elsewhere.
pub open spec fn element_node(el: Element, n: ReactNode) -> bool
    decreases el, 6nat,
{
    let t = el.tag@;
    if t.len() == 0 {
        n matches ReactNode::Fragment { children: w, .. } && children_nodes(el.children@, w@)
    } else if t == "StrictMode"@ {
        n matches ReactNode::StrictMode { children: w } && children_nodes(el.children@, w@)
    } else if t == "Suspense"@ {
        n matches ReactNode::Suspense { children: w, .. } && children_nodes(el.children@, w@)
    } else if t == "Portal"@ {
        n matches ReactNode::Portal { children: w, .. } && children_nodes(el.children@, w@)
    } else if provider_tag(t) {
        n matches ReactNode::ContextProvider { children: w, .. } && children_nodes(el.children@, w@)
    } else if el.is_component {
        true
    } else if el.children@.len() == 1 && list_form(el.children@[0]) {
        n matches ReactNode::Host { tag, props: p, children: w } && tag@ == t && props_lowered(el.props@, p@)
            && w@.len() == 1 && list_node(el.children@[0], w@[0])
    } else {
        n matches ReactNode::Host { tag, props: p, children: w } && tag@ == t && props_lowered(el.props@, p@)
            && children_nodes(el.children@, w@)
    }
}

/// The attribute `p` lowered: its name, and its value lowered (`true`
/// when it has none).
pub open spec fn prop_lowered(p: Prop, x: (String, JsExpr)) -> bool {
    x.0@ == p.name@ && match p.value {
        Some(e) => lowered(e, x.1),
        None => x.1 == JsExpr::Lit(Literal::Bool(true)),
    }
}

/// `v` are the attributes `ps` lowered, one for one and in order.
pub open spec fn props_lowered(ps: Seq<Prop>, v: Seq<(String, JsExpr)>) -> bool {
    v.len() == ps.len() && forall|i: int| 0 <= i < ps.len() ==> #[trigger] prop_lowered(ps[i], v[i])
}

/// `n` is the keyed list a `xs.map(x => <el/>)` child lowers to: a list
/// over the lowering of `xs`.
pub open spec fn list_node(c: Expr, n: ReactNode) -> bool {
    match c {
        Expr::Call { callee, .. } => match *callee {
            Expr::Member { base, .. } => n matches ReactNode::List { items, .. } && lowered(*base, items),
            _ => false,
        },
        _ => false,
    }
}

/// The empty fragment a short-circuit render shows for "nothing".
pub open spec fn empty_fragment(n: ReactNode) -> bool {
    n matches ReactNode::Fragment { key, children } && key is None && children@.len() == 0
}

/// `n` is the node of a short-circuit render `a && b` / `a || b`: a
/// conditional on the non-rendering side (the right one when only the left
/// one renders, else the left one), showing the rendering side's node when
/// the test holds for `&&` (when it fails for `||`) and nothing otherwise.
pub open spec fn short_node(c: Expr, n: ReactNode) -> bool
    decreases c, 7nat,
{
    match c {
        Expr::Binary { op, left, right } => {
            let side_left = renders_node(*left) && !renders_node(*right);
            let shown = if side_left { *left } else { *right };
            let test = if side_left { *right } else { *left };
            n matches ReactNode::If { cond: k, then: t, else_: x } && lowered(test, k) && if op is Or {
                empty_fragment(*t) && render_node(shown, *x)
            } else {
                render_node(shown, *t) && empty_fragment(*x)
            }
        },
        _ => n == ReactNode::Children,
    }
}

/// `w` are the nodes the children `s` lower to, one per child, in order.
pub open spec fn children_nodes(s: Seq<Expr>, w: Seq<ReactNode>) -> bool
    decreases s, 5nat,
{
    if s.len() == 0 {
        w.len() == 0
    } else {
        w.len() == s.len() && children_nodes(s.drop_last(), w.drop_last()) && child_node(s.last(), w.last())
    }
}

/// `n` is the node an expression in a render position lowers to: an
/// element's node, a conditional choosing between the nodes of the two
/// branches, the `children` splice point, or the lowered value as text.
pub open spec fn render_node(e: Expr, n: ReactNode) -> bool
    decreases e, 7nat,
{
    match e {
        Expr::Element(el) => element_node(el, n),
        Expr::Ternary { cond, then, else_ } => n matches ReactNode::If { cond: c, then: t, else_: x }
            && lowered(*cond, c) && render_node(*then, *t) && render_node(*else_, *x),
        Expr::Ident { name, is_component } => if !is_component && name@ == "children"@ {
            n == ReactNode::Children
        } else {
            n matches ReactNode::Text(j) && lowered(e, j)
        },
        _ => n matches ReactNode::Text(j) && lowered(e, j),
    }
}

/// `n` is the node a child of an element lowers to: as in a render
/// position, and besides a keyed list for `xs.map(x => <el/>)` and a
/// conditional for a short-circuit render.
pub open spec fn child_node(c: Expr, n: ReactNode) -> bool
    decreases c, 8nat,
{
    match c {
        Expr::Call { .. } => if list_form(c) {
            list_node(c, n)
        } else {
            n matches ReactNode::Text(j) && lowered(c, j)
        },
        Expr::Binary { .. } => if short_circuit_render(c) {
            short_node(c, n)
        } else {
            n matches ReactNode::Text(j) && lowered(c, j)
        },
        _ => render_node(c, n),
    }
}

/// The children nodes of a list of children keep their order: the node at
/// each position is the lowering of the child at that position.
pub proof fn law_children_keep_their_order(s: Seq<Expr>, w: Seq<ReactNode>, i: int)
    requires
        children_nodes(s, w),
        0 <= i < s.len(),
    ensures
        w.len() == s.len(),
        child_node(s[i], w[i]),
    decreases s.len(),
{
    if i < s.len() - 1 {
        law_children_keep_their_order(s.drop_last(), w.drop_last(), i);
        assert(s.drop_last()[i] == s[i]);
        assert(w.drop_last()[i] == w[i]);
    }
}

/// An expression in a render position lowers.
pub open spec fn renderable_ok(e: Expr, index: Seq<(String, usize)>, locals: Seq<String>) -> bool
    decreases e, 7nat,
{
    match e {
        Expr::Element(el) => element_ok(el, index, locals),
        Expr::Ternary { cond, then, else_ } => lowerable(*cond) && renderable_ok(*then, index, locals)
            && renderable_ok(*else_, index, locals),
        _ => lowerable(e),
    }
}

/// A child of an element lowers.
pub open spec fn child_ok(c: Expr, index: Seq<(String, usize)>, locals: Seq<String>) -> bool
    decreases c, 7nat,
{
    match c {
        Expr::Element(el) => element_ok(el, index, locals),
        Expr::Ternary { cond, then, else_ } => lowerable(*cond) && renderable_ok(*then, index, locals)
            && renderable_ok(*else_, index, locals),
        Expr::Call { .. } => if list_form(c) { list_ok(c, index, locals) } else { lowerable(c) },
        Expr::Binary { .. } => if short_circuit_render(c) { short_ok(c, index, locals) } else { lowerable(c) },
        _ => lowerable(c),
    }
}

/// Every item of the list satisfies `fragment_prop_ok`.
pub open spec fn fragment_props_ok(s: Seq<Prop>) -> bool
    decreases s, 5nat,
{
    if s.len() == 0 { true } else { fragment_props_ok(s.drop_last()) && fragment_prop_ok(s.last()) }
}

pub proof fn lemma_fragment_props_ok(s: Seq<Prop>, i: int)
    requires
        0 <= i < s.len(),
        fragment_props_ok(s),
    ensures
        fragment_prop_ok(s[i]),
    decreases s.len(),
{
    if i < s.len() - 1 {
        lemma_fragment_props_ok(s.drop_last(), i);
        assert(s.drop_last()[i] == s[i]);
    }
}

pub proof fn lemma_fragment_props_ok_all(s: Seq<Prop>)
    requires
        forall|i: int| 0 <= i < s.len() ==> #[trigger] fragment_prop_ok(s[i]),
    ensures
        fragment_props_ok(s),
    decreases s.len(),
{
    if s.len() > 0 {
        let d = s.drop_last();
        assert forall|i: int| 0 <= i < d.len() implies #[trigger] fragment_prop_ok(d[i]) by {
            assert(d[i] == s[i]);
        }
        lemma_fragment_props_ok_all(d);
        assert(fragment_prop_ok(s[s.len() - 1]));
    }
}

/// Every item of the list satisfies `fallback_prop_ok`.
pub open spec fn fallback_props_ok(s: Seq<Prop>, index: Seq<(String, usize)>, locals: Seq<String>) -> bool
    decreases s, 5nat,
{
    if s.len() == 0 { true } else { fallback_props_ok(s.drop_last(), index, locals) && fallback_prop_ok(s.last(), index, locals) }
}

pub proof fn lemma_fallback_props_ok(s: Seq<Prop>, index: Seq<(String, usize)>, locals: Seq<String>, i: int)
    requires
        0 <= i < s.len(),
        fallback_props_ok(s, index, locals),
    ensures
        fallback_prop_ok(s[i], index, locals),
    decreases s.len(),
{
    if i < s.len() - 1 {
        lemma_fallback_props_ok(s.drop_last(), index, locals, i);
        assert(s.drop_last()[i] == s[i]);
    }
}

pub proof fn lemma_fallback_props_ok_all(s: Seq<Prop>, index: Seq<(String, usize)>, locals: Seq<String>)
    requires
        forall|i: int| 0 <= i < s.len() ==> #[trigger] fallback_prop_ok(s[i], index, locals),
    ensures
        fallback_props_ok(s, index, locals),
    decreases s.len(),
{
    if s.len() > 0 {
        let d = s.drop_last();
        assert forall|i: int| 0 <= i < d.len() implies #[trigger] fallback_prop_ok(d[i], index, locals) by {
            assert(d[i] == s[i]);
        }
        lemma_fallback_props_ok_all(d, index, locals);
        assert(fallback_prop_ok(s[s.len() - 1], index, locals));
    }
}

/// Every item of the list satisfies `value_prop_ok`.
pub open spec fn value_props_ok(s: Seq<Prop>) -> bool
    decreases s, 5nat,
{
    if s.len() == 0 { true } else { value_props_ok(s.drop_last()) && value_prop_ok(s.last()) }
}

pub proof fn lemma_value_props_ok(s: Seq<Prop>, i: int)
    requires
        0 <= i < s.len(),
        value_props_ok(s),
    ensures
        value_prop_ok(s[i]),
    decreases s.len(),
{
    if i < s.len() - 1 {
        lemma_value_props_ok(s.drop_last(), i);
        assert(s.drop_last()[i] == s[i]);
    }
}

pub proof fn lemma_value_props_ok_all(s: Seq<Prop>)
    requires
        forall|i: int| 0 <= i < s.len() ==> #[trigger] value_prop_ok(s[i]),
    ensures
        value_props_ok(s),
    decreases s.len(),
{
    if s.len() > 0 {
        let d = s.drop_last();
        assert forall|i: int| 0 <= i < d.len() implies #[trigger] value_prop_ok(d[i]) by {
            assert(d[i] == s[i]);
        }
        lemma_value_props_ok_all(d);
        assert(value_prop_ok(s[s.len() - 1]));
    }
}

/// Every item of the list satisfies `prop_lowerable`.
pub open spec fn props_lowerable(s: Seq<Prop>) -> bool
    decreases s, 5nat,
{
    if s.len() == 0 { true } else { props_lowerable(s.drop_last()) && prop_lowerable(s.last()) }
}

pub proof fn lemma_props_lowerable(s: Seq<Prop>, i: int)
    requires
        0 <= i < s.len(),
        props_lowerable(s),
    ensures
        prop_lowerable(s[i]),
    decreases s.len(),
{
    if i < s.len() - 1 {
        lemma_props_lowerable(s.drop_last(), i);
        assert(s.drop_last()[i] == s[i]);
    }
}

pub proof fn lemma_props_lowerable_all(s: Seq<Prop>)
    requires
        forall|i: int| 0 <= i < s.len() ==> #[trigger] prop_lowerable(s[i]),
    ensures
        props_lowerable(s),
    decreases s.len(),
{
    if s.len() > 0 {
        let d = s.drop_last();
        assert forall|i: int| 0 <= i < d.len() implies #[trigger] prop_lowerable(d[i]) by {
            assert(d[i] == s[i]);
        }
        lemma_props_lowerable_all(d);
        assert(prop_lowerable(s[s.len() - 1]));
    }
}

/// Every item of the list satisfies `child_ok`.
pub open spec fn children_ok(s: Seq<Expr>, index: Seq<(String, usize)>, locals: Seq<String>) -> bool
    decreases s, 5nat,
{
    if s.len() == 0 { true } else { children_ok(s.drop_last(), index, locals) && child_ok(s.last(), index, locals) }
}

pub proof fn lemma_children_ok(s: Seq<Expr>, index: Seq<(String, usize)>, locals: Seq<String>, i: int)
    requires
        0 <= i < s.len(),
        children_ok(s, index, locals),
    ensures
        child_ok(s[i], index, locals),
    decreases s.len(),
{
    if i < s.len() - 1 {
        lemma_children_ok(s.drop_last(), index, locals, i);
        assert(s.drop_last()[i] == s[i]);
    }
}

pub proof fn lemma_children_ok_all(s: Seq<Expr>, index: Seq<(String, usize)>, locals: Seq<String>)
    requires
        forall|i: int| 0 <= i < s.len() ==> #[trigger] child_ok(s[i], index, locals),
    ensures
        children_ok(s, index, locals),
    decreases s.len(),
{
    if s.len() > 0 {
        let d = s.drop_last();
        assert forall|i: int| 0 <= i < d.len() implies #[trigger] child_ok(d[i], index, locals) by {
            assert(d[i] == s[i]);
        }
        lemma_children_ok_all(d, index, locals);
        assert(child_ok(s[s.len() - 1], index, locals));
    }
}

// ---------------------------------------------------------------------------
// Executable lowering.

fn last_dot_of(t: &Vec<char>) -> (r: Option<usize>)
    ensures
        r matches Some(k) ==> k < t@.len() && last_dot(t@) == Some(k as int),
        r is None ==> last_dot(t@) is None,
{
    let mut k = t.len();
    assert(t@.take(k as int) =~= t@);
    while k > 0
        invariant
            k <= t@.len(),
            last_dot(t@) == last_dot(t@.take(k as int)),
        decreases k,
    {
        if t[k - 1] == '.' {
            assert(t@.take(k as int).last() == t@[k - 1]);
            return Some(k - 1);
        }
        assert(t@.take(k as int).drop_last() =~= t@.take(k - 1));
        k = k - 1;
    }
    assert(t@.take(0) =~= Seq::<char>::empty());
    None
}

fn sub_string(t: &Vec<char>, a: usize, b: usize) -> (r: String)
    requires
        a <= b <= t@.len(),
    ensures
        r@ == t@.subrange(a as int, b as int),
{
    let mut out: Vec<char> = Vec::new();
    let mut i = a;
    while i < b
        invariant
            a <= i <= b <= t@.len(),
            out@ == t@.subrange(a as int, i as int),
        decreases b - i,
    {
        out.push(t[i]);
        i = i + 1;
        assert(out@ =~= t@.subrange(a as int, i as int));
    }
    string_from_chars(&out)
}

fn names_has(locals: &Vec<String>, n: &str) -> (r: bool)
    ensures
        r == names_contain(locals@, n@),
{
    contains_string(locals, n)
}

/// Lower the props of an element in order; a prop without a value is `true`.
#[verifier::loop_isolation(false)]
pub fn lower_props(ps: &Vec<Prop>, index: &Vec<(String, usize)>, fresh: &mut u64)
    -> (r: Result<Vec<(String, JsExpr)>, LowerError>)
    ensures
        r is Err <==> !props_lowerable(ps@),
        r matches Ok(v) ==> v@.len() == ps@.len(),
        r matches Ok(v) ==> props_lowered(ps@, v@),
{
    let mut out: Vec<(String, JsExpr)> = Vec::new();
    let n = ps.len();
    for i in 0..n
        invariant
            n == ps@.len(),
            out@.len() == i,
            forall|j: int| 0 <= j < i ==> #[trigger] prop_lowerable(ps@[j]),
            forall|j: int| 0 <= j < i ==> #[trigger] prop_lowered(ps@[j], out@[j]),
    {
        let p = &ps[i];
        let value = match &p.value {
            Some(v) => match lower_expr(v, index, fresh) {
                Ok(x) => x,
                Err(z) => {
                    proof {
                        if props_lowerable(ps@) {
                            lemma_props_lowerable(ps@, i as int);
                        }
                    }
                    return Err(z);
                },
            },
            None => JsExpr::Lit(Literal::Bool(true)),
        };
        let ghost before = out@;
        out.push((owned(p.name.as_str()), value));
        assert(forall|j: int| 0 <= j < i ==> out@[j] == before[j]);
        assert(prop_lowered(ps@[i as int], out@[i as int]));
    }
    proof { lemma_props_lowerable_all(ps@); }
    Ok(out)
}

/// Lower the children of an element in order.
#[verifier::loop_isolation(false)]
pub fn lower_children(v: &Vec<Expr>, index: &Vec<(String, usize)>, locals: &Vec<String>, fresh: &mut u64)
    -> (r: Result<Vec<ReactNode>, LowerError>)
    ensures
        r is Err <==> !children_ok(v@, index@, locals@),
        r matches Ok(w) ==> w@.len() == v@.len(),
        r matches Ok(w) ==> children_nodes(v@, w@),
    decreases v@, 18nat,
{
    let mut out: Vec<ReactNode> = Vec::new();
    let n = v.len();
    for i in 0..n
        invariant
            n == v@.len(),
            out@.len() == i,
            forall|j: int| 0 <= j < i ==> #[trigger] child_ok(v@[j], index@, locals@),
            children_nodes(v@.take(i as int), out@),
    {
        assert(decreases_to!(v@ => v@[i as int]));
        let x = match lower_child(&v[i], index, locals, fresh) {
            Ok(x) => x,
            Err(z) => {
                proof {
                    if children_ok(v@, index@, locals@) {
                        lemma_children_ok(v@, index@, locals@, i as int);
                    }
                }
                return Err(z);
            },
        };
        let ghost before = out@;
        out.push(x);
        proof {
            assert(v@.take(i + 1).drop_last() =~= v@.take(i as int));
            assert(v@.take(i + 1).last() == v@[i as int]);
            assert(out@.drop_last() =~= before);
        }
    }
    proof { lemma_children_ok_all(v@, index@, locals@); }
    assert(v@.take(n as int) =~= v@);
    Ok(out)
}

/// Lower an expression in a render position.
pub fn lower_renderable(e: &Expr, index: &Vec<(String, usize)>, locals: &Vec<String>, fresh: &mut u64)
    -> (r: Result<ReactNode, LowerError>)
    ensures
        r is Err <==> !renderable_ok(*e, index@, locals@),
        r matches Ok(n) ==> (root_node(n) <==> renders_root(*e)) && (class_root_node(n) <==> renders_class_root(*e)),
        r matches Ok(n) ==> render_node(*e, n),
    decreases e, 20nat,
{
    match e {
        Expr::Element(el) => lower_element(el, index, locals, fresh),
        Expr::Ternary { cond, then, else_ } => {
            let c = lower_expr(cond, index, fresh)?;
            let t = lower_renderable(then, index, locals, fresh)?;
            let x = lower_renderable(else_, index, locals, fresh)?;
            Ok(ReactNode::If { cond: c, then: Box::new(t), else_: Box::new(x) })
        },
        Expr::Ident { name, is_component } => {
            if !*is_component && str_eq(name.as_str(), "children") {
                Ok(ReactNode::Children)
            } else {
                let x = lower_expr(e, index, fresh)?;
                Ok(ReactNode::Text(x))
            }
        },
        _ => {
            let x = lower_expr(e, index, fresh)?;
            Ok(ReactNode::Text(x))
        },
    }
}

/// Lower a child of an element.
pub fn lower_child(c: &Expr, index: &Vec<(String, usize)>, locals: &Vec<String>, fresh: &mut u64)
    -> (r: Result<ReactNode, LowerError>)
    ensures
        r is Err <==> !child_ok(*c, index@, locals@),
        r matches Ok(n) ==> child_node(*c, n),
    decreases c, 21nat,
{
    match c {
        Expr::Element(_) => lower_renderable(c, index, locals, fresh),
        Expr::Ternary { .. } => lower_renderable(c, index, locals, fresh),
        Expr::Ident { name, is_component } => {
            if !*is_component && str_eq(name.as_str(), "children") {
                Ok(ReactNode::Children)
            } else {
                let x = lower_expr(c, index, fresh)?;
                Ok(ReactNode::Text(x))
            }
        },
        Expr::Call { .. } => {
            match try_lower_list(c, index, locals, fresh)? {
                Some(list) => Ok(list),
                None => {
                    let x = lower_expr(c, index, fresh)?;
                    Ok(ReactNode::Text(x))
                },
            }
        },
        Expr::Binary { .. } => {
            if is_short_circuit_render(c) {
                lower_short_circuit(c, index, locals, fresh)
            } else {
                let x = lower_expr(c, index, fresh)?;
                Ok(ReactNode::Text(x))
            }
        },
        _ => {
            let x = lower_expr(c, index, fresh)?;
            Ok(ReactNode::Text(x))
        },
    }
}

/// `cond && <el/>` renders the element or nothing; `cond || <el/>` nothing
/// or the element. The rendering side is the left one unless only the
/// right one renders; "nothing" is an empty fragment.
fn lower_short_circuit(e: &Expr, index: &Vec<(String, usize)>, locals: &Vec<String>, fresh: &mut u64)
    -> (r: Result<ReactNode, LowerError>)
    requires
        short_circuit_render(*e),
    ensures
        r is Err <==> !short_ok(*e, index@, locals@),
        r matches Ok(n) ==> short_node(*e, n),
    decreases e, 19nat,
{
    match e {
        Expr::Binary { op, left, right } => {
            let left_side = is_renderable_expr(left) && !is_renderable_expr(right);
            let node = if left_side {
                lower_renderable(left, index, locals, fresh)?
            } else {
                lower_renderable(right, index, locals, fresh)?
            };
            let c = if left_side {
                lower_expr(right, index, fresh)?
            } else {
                lower_expr(left, index, fresh)?
            };
            let nothing = ReactNode::Fragment { key: None, children: Vec::new() };
            match op {
                BinOp::Or => Ok(ReactNode::If { cond: c, then: Box::new(nothing), else_: Box::new(node) }),
                _ => Ok(ReactNode::If { cond: c, then: Box::new(node), else_: Box::new(nothing) }),
            }
        },
        _ => Ok(ReactNode::Children),
    }
}

/// The key of a list item: its `key` prop, renamed as the item is.
fn item_key(props: &Vec<(String, JsExpr)>, var: &str) -> JsExpr {
    let n = props.len();
    for i in 0..n
        invariant
            n == props@.len(),
    {
        if str_eq(props[i].0.as_str(), "key") {
            return subst_expr(copy_js(&props[i].1), var, "$item");
        }
    }
    JsExpr::Var(owned("$item"))
}

/// `xs.map(x => <el/>)`: a keyed list of the element over `xs`, with `x`
/// renamed to `$item`; none for any other expression.
fn try_lower_list(e: &Expr, index: &Vec<(String, usize)>, locals: &Vec<String>, fresh: &mut u64)
    -> (r: Result<Option<ReactNode>, LowerError>)
    ensures
        r is Err <==> (list_form(*e) && !list_ok(*e, index@, locals@)),
        r matches Ok(o) ==> (o is Some <==> list_form(*e)),
        r matches Ok(Some(n)) ==> list_node(*e, n),
    decreases e, 19nat,
{
    match e {
        Expr::Call { callee, args } => {
            if args.len() != 1 {
                return Ok(None);
            }
            match &**callee {
                Expr::Member { base, prop } => {
                    if !str_eq(prop.as_str(), "map") {
                        return Ok(None);
                    }
                    match &args[0] {
                        CallArg::Expr(Expr::Arrow { params, body, .. }) => {
                            match &**body {
                                Expr::Element(_) => {
                                    assert(decreases_to!(*e => args@[0]));
                                    let item = lower_renderable(body, index, locals, fresh)?;
                                    let var = if params.len() > 0 {
                                        match &params[0].pattern {
                                            Pattern::Name { name, .. } => owned(name.as_str()),
                                            _ => owned("$item"),
                                        }
                                    } else {
                                        owned("$item")
                                    };
                                    let item = subst_node(item, var.as_str(), "$item");
                                    let key_expr = match &item {
                                        ReactNode::Host { props, .. } => item_key(props, var.as_str()),
                                        ReactNode::Component { props, .. } => item_key(props, var.as_str()),
                                        ReactNode::ComponentExpr { props, .. } => item_key(props, var.as_str()),
                                        ReactNode::Fragment { key: Some(k), .. } => copy_js(k),
                                        _ => JsExpr::Var(owned("$item")),
                                    };
                                    let items = lower_expr(base, index, fresh)?;
                                    Ok(Some(ReactNode::List { items, key_expr, item: Box::new(item) }))
                                },
                                _ => Ok(None),
                            }
                        },
                        _ => Ok(None),
                    }
                },
                _ => Ok(None),
            }
        },
        _ => Ok(None),
    }
}

/// Lower an element to a React node.
#[verifier::spinoff_prover]
#[verifier::rlimit(100)]
#[verifier::loop_isolation(false)]
pub fn lower_element(el: &Element, index: &Vec<(String, usize)>, locals: &Vec<String>, fresh: &mut u64)
    -> (r: Result<ReactNode, LowerError>)
    ensures
        r is Err <==> !element_ok(*el, index@, locals@),
        r matches Ok(n) ==> root_node(n) && (class_root_node(n) <==> class_root_tag(el.tag@)),
        r matches Ok(n) ==> element_node(*el, n),
    decreases el, 19nat,
{
    let tag = chars_of(el.tag.as_str());
    let np = el.props.len();
    if tag.len() == 0 {
        let mut key: Option<JsExpr> = None;
        for i in 0..np
            invariant
                np == el.props@.len(),
                forall|j: int| 0 <= j < i ==> #[trigger] fragment_prop_ok(el.props@[j]),
        {
            let p = &el.props[i];
            if str_eq(p.name.as_str(), "key") {
                proof { reveal_strlit("key"); }
                let k = match &p.value {
                    Some(v) => match lower_expr(v, index, fresh) {
                        Ok(x) => x,
                        Err(z) => {
                            proof {
                                if fragment_props_ok(el.props@) {
                                    lemma_fragment_props_ok(el.props@, i as int);
                                }
                            }
                            return Err(z);
                        },
                    },
                    None => JsExpr::Lit(Literal::Bool(true)),
                };
                key = Some(k);
            } else {
                proof {
                    if fragment_props_ok(el.props@) {
                        lemma_fragment_props_ok(el.props@, i as int);
                    }
                }
                return Err(LowerError::InvalidFragmentProp(owned(p.name.as_str())));
            }
        }
        proof { lemma_fragment_props_ok_all(el.props@); }
        let children = lower_children(&el.children, index, locals, fresh)?;
        proof {
            reveal_strlit("StrictMode");
            reveal_strlit("Suspense");
            reveal_strlit("Portal");
            assert(el.tag@.len() == 0);
        }
        return Ok(ReactNode::Fragment { key, children });
    }
    if str_eq(el.tag.as_str(), "StrictMode") {
        let children = lower_children(&el.children, index, locals, fresh)?;
        return Ok(ReactNode::StrictMode { children });
    }
    if str_eq(el.tag.as_str(), "Suspense") {
        let mut fallback: Option<Box<ReactNode>> = None;
        for i in 0..np
            invariant
                np == el.props@.len(),
                forall|j: int| 0 <= j < i ==> #[trigger] fallback_prop_ok(el.props@[j], index@, locals@),
                fallback is Some <==> exists|j: int| 0 <= j < i && #[trigger] el.props@[j].name@ == "fallback"@,
        {
            let p = &el.props[i];
            if str_eq(p.name.as_str(), "fallback") {
                match &p.value {
                    Some(v) => {
                        assert(decreases_to!(*el => el.props@[i as int].value->0));
                        match lower_renderable(v, index, locals, fresh) {
                            Ok(x) => {
                                fallback = Some(Box::new(x));
                            },
                            Err(z) => {
                                proof {
                                    if fallback_props_ok(el.props@, index@, locals@) {
                                        lemma_fallback_props_ok(el.props@, index@, locals@, i as int);
                                    }
                                }
                                return Err(z);
                            },
                        }
                    },
                    None => {
                        proof {
                            if fallback_props_ok(el.props@, index@, locals@) {
                                lemma_fallback_props_ok(el.props@, index@, locals@, i as int);
                            }
                        }
                        return Err(LowerError::NonRenderableReturn(owned("Suspense fallback must be an element")));
                    },
                }
            }
        }
        proof { lemma_fallback_props_ok_all(el.props@, index@, locals@); }
        let fb = match fallback {
            Some(f) => f,
            None => {
                return Err(LowerError::NonRenderableReturn(owned("Suspense requires fallback")));
            },
        };
        let children = lower_children(&el.children, index, locals, fresh)?;
        return Ok(ReactNode::Suspense { fallback: fb, children });
    }
    if str_eq(el.tag.as_str(), "Portal") {
        let mut target = owned("");
        proof { reveal_strlit(""); }
        assert(target@ =~= Seq::<char>::empty());
        assert(el.props@.take(0) =~= Seq::<Prop>::empty());
        for i in 0..np
            invariant
                np == el.props@.len(),
                portal_props_ok(el.props@.take(i as int)),
                target@ == portal_target(el.props@.take(i as int)),
        {
            let p = &el.props[i];
            proof {
                assert(el.props@.take(i + 1).drop_last() =~= el.props@.take(i as int));
                assert(el.props@.take(i + 1).last() == el.props@[i as int]);
            }
            if str_eq(p.name.as_str(), "target") {
                match &p.value {
                    Some(Expr::Literal(Literal::String(s))) => {
                        target = owned(s.as_str());
                    },
                    _ => {
                        assert(!portal_props_ok(el.props@)) by {
                            assert(el.props@[i as int].name@ == "target"@);
                        }
                        return Err(LowerError::NonRenderableReturn(owned("Portal target must be a string literal")));
                    },
                }
            }
            assert forall|j: int| 0 <= j < i + 1 && (#[trigger] el.props@.take(i + 1)[j]).name@ == "target"@
                implies (el.props@.take(i + 1)[j].value matches Some(v) && v matches Expr::Literal(Literal::String(_))) by {
                if j < i {
                    assert(el.props@.take(i + 1)[j] == el.props@.take(i as int)[j]);
                }
            }
        }
        assert(el.props@.take(np as int) =~= el.props@);
        if target.as_str().unicode_len() == 0 {
            return Err(LowerError::NonRenderableReturn(owned("Portal requires a `target` className")));
        }
        let children = lower_children(&el.children, index, locals, fresh)?;
        return Ok(ReactNode::Portal { target, children });
    }
    let dot = last_dot_of(&tag);
    let provider = match dot {
        Some(k) => {
            let member = sub_string(&tag, k + 1, tag.len());
            k > 0 && str_eq(member.as_str(), "Provider")
        },
        None => false,
    };
    if provider {
        let k = dot.unwrap();
        let base = sub_string(&tag, 0, k);
        let mut value = JsExpr::Lit(Literal::Null);
        for i in 0..np
            invariant
                np == el.props@.len(),
                forall|j: int| 0 <= j < i ==> #[trigger] value_prop_ok(el.props@[j]),
        {
            let p = &el.props[i];
            if str_eq(p.name.as_str(), "value") {
                value = match &p.value {
                    Some(v) => match lower_expr(v, index, fresh) {
                        Ok(x) => x,
                        Err(z) => {
                            proof {
                                if value_props_ok(el.props@) {
                                    lemma_value_props_ok(el.props@, i as int);
                                }
                            }
                            return Err(z);
                        },
                    },
                    None => JsExpr::Lit(Literal::Bool(true)),
                };
            }
        }
        proof { lemma_value_props_ok_all(el.props@); }
        let children = lower_children(&el.children, index, locals, fresh)?;
        return Ok(ReactNode::ContextProvider { ctx: JsExpr::Var(base), value, children });
    }
    if el.is_component {
        let mut props = lower_props(&el.props, index, fresh)?;
        if el.children.len() > 0 {
            let children = lower_children(&el.children, index, locals, fresh)?;
            props.push((owned("children"), JsExpr::Children(children)));
        } else {
            assert(children_ok(el.children@, index@, locals@));
        }
        match dot {
            Some(k) => {
                let base = sub_string(&tag, 0, k);
                if k > 0 && names_has(locals, base.as_str()) {
                    let member = sub_string(&tag, k + 1, tag.len());
                    return Ok(ReactNode::ComponentExpr {
                        component: JsExpr::Get { base: Box::new(JsExpr::Var(base)), prop: member },
                        props,
                    });
                }
                return Err(LowerError::UnknownComponent(owned(el.tag.as_str())));
            },
            None => {
                match assoc_find(index, el.tag.as_str()) {
                    Some(j) => {
                        return Ok(ReactNode::Component { component: ComponentRef(index[j].1), props });
                    },
                    None => {},
                }
                if names_has(locals, el.tag.as_str()) {
                    return Ok(ReactNode::ComponentExpr { component: JsExpr::Var(owned(el.tag.as_str())), props });
                }
                return Err(LowerError::UnknownComponent(owned(el.tag.as_str())));
            },
        }
    }
    if el.children.len() == 1 {
        assert(decreases_to!(*el => el.children@[0]));
        match try_lower_list(&el.children[0], index, locals, fresh) {
            Ok(Some(list)) => {
                let props = lower_props(&el.props, index, fresh)?;
                return Ok(ReactNode::Host { tag: owned(el.tag.as_str()), props, children: vec![list] });
            },
            Ok(None) => {},
            Err(z) => {
                return Err(z);
            },
        }
    }
    let props = lower_props(&el.props, index, fresh)?;
    let children = lower_children(&el.children, index, locals, fresh)?;
    Ok(ReactNode::Host { tag: owned(el.tag.as_str()), props, children })
}

} // verus!
