//! The React IR: the node tree components render. A component is referred
//! to by its index in the program's component table.

use vstd::prelude::*;
use crate::ir::js::JsExpr;

verus! {

/// A node of the rendered tree.
#[derive(Debug, PartialEq)]
pub enum ReactNode {
    /// A host element such as `<div>`.
    Host { tag: String, props: Vec<(String, JsExpr)>, children: Vec<ReactNode> },
    /// An instance of a component of the table.
    Component { component: ComponentRef, props: Vec<(String, JsExpr)> },
    /// An instance of a component given by a value.
    ComponentExpr { component: JsExpr, props: Vec<(String, JsExpr)> },
    /// `cond ? then : else_` between two nodes.
    If { cond: JsExpr, then: Box<ReactNode>, else_: Box<ReactNode> },
    /// A keyed list: `item` rendered for each element of `items`.
    List { items: JsExpr, key_expr: JsExpr, item: Box<ReactNode> },
    /// A context provider around `children`.
    ContextProvider { ctx: JsExpr, value: JsExpr, children: Vec<ReactNode> },
    /// `<StrictMode>` around `children`.
    StrictMode { children: Vec<ReactNode> },
    /// `<Suspense>` with a fallback.
    Suspense { fallback: Box<ReactNode>, children: Vec<ReactNode> },
    /// A portal into the element of class `target`.
    Portal { target: String, children: Vec<ReactNode> },
    /// A value rendered as text.
    Text(JsExpr),
    /// Where a component's `children` prop is spliced in.
    Children,
    /// A fragment, optionally keyed.
    Fragment { key: Option<JsExpr>, children: Vec<ReactNode> },
}

/// Reference to a component in the program's component table.
#[derive(Debug, Clone, Copy, PartialEq, Eq, Hash, Structural)]
pub struct ComponentRef(pub usize);

impl ComponentRef {
    /// The component's index in the table.
    pub fn index(self) -> (r: usize)
        ensures r == self.0,
    {
        self.0
    }
}

} // verus!
