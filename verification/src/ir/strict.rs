//! Dropping `<StrictMode>` wrappers from a rendered tree: each becomes an
//! unkeyed fragment around the same children, which splice where the
//! wrapper sat.

use vstd::prelude::*;
use crate::ir::react::ReactNode;

verus! {

/// `r` is `n` with every `StrictMode` node, at any depth, replaced by an
/// unkeyed fragment around its children; everything else as it was. The
/// strip reaches through children, both branches of a conditional, a list's
/// item and a suspense fallback; the nodes handed to a component as props are
/// left as they are.
pub open spec fn stripped(n: ReactNode, r: ReactNode) -> bool
    decreases n, 3nat,
{
    match n {
        ReactNode::StrictMode { children } =>
            r matches ReactNode::Fragment { key: k, children: c } && k is None && stripped_all(children@, c@),
        ReactNode::Host { tag, props, children } =>
            r matches ReactNode::Host { tag: t, props: p, children: c } && t == tag && p == props
                && stripped_all(children@, c@),
        ReactNode::If { cond, then, else_ } =>
            r matches ReactNode::If { cond: c, then: t, else_: x } && c == cond && stripped(*then, *t)
                && stripped(*else_, *x),
        ReactNode::List { items, key_expr, item } =>
            r matches ReactNode::List { items: i, key_expr: k, item: t } && i == items && k == key_expr
                && stripped(*item, *t),
        ReactNode::ContextProvider { ctx, value, children } =>
            r matches ReactNode::ContextProvider { ctx: c, value: v, children: ch } && c == ctx && v == value
                && stripped_all(children@, ch@),
        ReactNode::Portal { target, children } =>
            r matches ReactNode::Portal { target: t, children: c } && t == target && stripped_all(children@, c@),
        ReactNode::Suspense { fallback, children } =>
            r matches ReactNode::Suspense { fallback: f, children: c } && stripped(*fallback, *f)
                && stripped_all(children@, c@),
        _ => r == n,
    }
}

/// `stripped` over a list of nodes, item by item.
pub open spec fn stripped_all(s: Seq<ReactNode>, t: Seq<ReactNode>) -> bool
    decreases s, 2nat,
{
    if s.len() == 0 {
        t.len() == 0
    } else {
        t.len() == s.len() && stripped_all(s.drop_last(), t.drop_last()) && stripped(s.last(), t.last())
    }
}

#[verifier::loop_isolation(false)]
fn strip_all(v: Vec<ReactNode>) -> (r: Vec<ReactNode>)
    ensures stripped_all(v@, r@),
    decreases v@, 2nat,
{
    let ghost orig = v@;
    let mut v = v;
    let mut out: Vec<ReactNode> = Vec::new();
    let n = v.len();
    assert(orig.take(0) =~= Seq::<ReactNode>::empty());
    for i in 0..n
        invariant
            n == orig.len(),
            v@ == orig.skip(i as int),
            out@.len() == i,
            stripped_all(orig.take(i as int), out@),
    {
        let x = v.remove(0);
        assert(x == orig[i as int]);
        assert(decreases_to!(orig => x));
        let y = strip_strict(x);
        let ghost before = out@;
        out.push(y);
        proof {
            let s = orig.take(i + 1);
            assert(s.drop_last() =~= orig.take(i as int));
            assert(s.last() == orig[i as int]);
            assert(out@.drop_last() =~= before);
            assert(v@ =~= orig.skip(i + 1));
        }
    }
    assert(orig.take(n as int) =~= orig);
    out
}

/// `n` with every `<StrictMode>` wrapper replaced by an unkeyed fragment
/// around its children.
pub fn strip_strict(n: ReactNode) -> (r: ReactNode)
    ensures stripped(n, r),
    decreases n, 4nat,
{
    match n {
        ReactNode::StrictMode { children } => ReactNode::Fragment { key: None, children: strip_all(children) },
        ReactNode::Host { tag, props, children } => ReactNode::Host { tag, props, children: strip_all(children) },
        ReactNode::If { cond, then, else_ } => ReactNode::If {
            cond,
            then: Box::new(strip_strict(*then)),
            else_: Box::new(strip_strict(*else_)),
        },
        ReactNode::List { items, key_expr, item } => ReactNode::List {
            items,
            key_expr,
            item: Box::new(strip_strict(*item)),
        },
        ReactNode::ContextProvider { ctx, value, children } => ReactNode::ContextProvider {
            ctx,
            value,
            children: strip_all(children),
        },
        ReactNode::Portal { target, children } => ReactNode::Portal { target, children: strip_all(children) },
        ReactNode::Suspense { fallback, children } => ReactNode::Suspense {
            fallback: Box::new(strip_strict(*fallback)),
            children: strip_all(children),
        },
        other => other,
    }
}

/// Stripping is idempotent: a tree that came out of the strip strips to
/// itself.
pub proof fn lemma_strip_idempotent(n: ReactNode, r: ReactNode)
    requires
        stripped(n, r),
    ensures
        stripped(r, r),
    decreases n, 1nat,
{
    match n {
        ReactNode::Host { children, .. } => {
            if let ReactNode::Host { children: c, .. } = r {
                lemma_strip_all_idempotent(children@, c@);
            }
        },
        ReactNode::If { then, else_, .. } => {
            if let ReactNode::If { then: t, else_: x, .. } = r {
                lemma_strip_idempotent(*then, *t);
                lemma_strip_idempotent(*else_, *x);
            }
        },
        ReactNode::List { item, .. } => {
            if let ReactNode::List { item: t, .. } = r {
                lemma_strip_idempotent(*item, *t);
            }
        },
        ReactNode::ContextProvider { children, .. } => {
            if let ReactNode::ContextProvider { children: c, .. } = r {
                lemma_strip_all_idempotent(children@, c@);
            }
        },
        ReactNode::Portal { children, .. } => {
            if let ReactNode::Portal { children: c, .. } = r {
                lemma_strip_all_idempotent(children@, c@);
            }
        },
        ReactNode::Suspense { fallback, children } => {
            if let ReactNode::Suspense { fallback: f, children: c } = r {
                lemma_strip_idempotent(*fallback, *f);
                lemma_strip_all_idempotent(children@, c@);
            }
        },
        _ => {},
    }
}

/// Stripping a list is idempotent, item by item.
pub proof fn lemma_strip_all_idempotent(s: Seq<ReactNode>, t: Seq<ReactNode>)
    requires
        stripped_all(s, t),
    ensures
        stripped_all(t, t),
    decreases s, 0nat,
{
    if s.len() > 0 {
        lemma_strip_all_idempotent(s.drop_last(), t.drop_last());
        lemma_strip_idempotent(s.last(), t.last());
    }
}

} // verus!
