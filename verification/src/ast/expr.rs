//! Expressions of the R2N source language.

use vstd::prelude::*;
use crate::ast::lit::Literal;
use crate::ast::op::{BinOp, UnOp};
use crate::ast::program::{Param, Stmt};

verus! {

/// A source-level expression.
#[derive(Debug, PartialEq)]
pub enum Expr {
    /// A literal value.
    Literal(Literal),
    /// A reference to a name. `is_component` is set when the identifier
    /// begins with an uppercase ASCII letter (JSX/React convention).
    Ident { name: String, is_component: bool },
    /// Member access: `obj.prop`.
    Member { base: Box<Expr>, prop: String },
    /// Binary operation.
    Binary { op: BinOp, left: Box<Expr>, right: Box<Expr> },
    /// Unary operation.
    Unary { op: UnOp, expr: Box<Expr> },
    /// Function call `callee(args...)`; arguments may be `...spread`.
    Call { callee: Box<Expr>, args: Vec<CallArg> },
    /// `new Callee(args...)`.
    New { callee: Box<Expr>, args: Vec<CallArg> },
    /// Assignment `target = value` (target is an identifier or a member access).
    Assign { target: Box<Expr>, value: Box<Expr> },
    /// JSX element `<Tag props>children</Tag>`.
    Element(Element),
    /// `cond ? then : else`.
    Ternary { cond: Box<Expr>, then: Box<Expr>, else_: Box<Expr> },
    /// Array literal; items may be `...spread`.
    Array(Vec<ArrayItem>),
    /// Object literal `{a, b: expr, ...spread}`.
    Object(Vec<ObjectItem>),
    /// Template literal: cooked text parts interleaved with interpolated
    /// expressions (`parts.len() == exprs.len() + 1`).
    Template { parts: Vec<String>, exprs: Vec<Expr> },
    /// `x++`, `x--`, `++x`, `--x`.
    Update { op: UpdateOp, target: Box<Expr>, prefix: bool },
    /// Compound assignment `x op= v`.
    CompoundAssign { op: BinOp, target: Box<Expr>, value: Box<Expr> },
    /// Arrow function `params => body`; `async_` marks `async` arrows.
    Arrow { params: Vec<Param>, body: Box<Expr>, async_: bool },
    /// `function Name?(params) { stmts }` in expression position.
    Function { name: Option<String>, params: Vec<Param>, body: Vec<Stmt> },
    /// `return expr?` in block-expression position.
    Return(Option<Box<Expr>>),
    /// `yield expr?`; `from_return` marks `return yield v`.
    Yield { value: Option<Box<Expr>>, from_return: bool },
    /// `await expr`; `from_return` marks `return await p`.
    Await { value: Box<Expr>, from_return: bool },
    /// `import("path")` with a string-literal specifier.
    DynImport { specifier: String },
    /// A block of expression statements; its value is the last one.
    Block(Vec<Expr>),
    /// `throw value`.
    Throw(Box<Expr>),
    /// `while (cond) body` in block-expression form.
    While { cond: Box<Expr>, body: Box<Expr> },
    /// `break` in block-expression form.
    Break,
    /// `continue` in block-expression form.
    Continue,
    /// `try { block } catch (param) { catch } finally { finally }`; at least
    /// one of catch/finally is present.
    Try {
        block: Vec<Expr>,
        catch_param: Option<String>,
        catch: Option<Vec<Expr>>,
        finally: Option<Vec<Expr>>,
    },
}

/// One argument in a call: a plain expression or `...spread`.
#[derive(Debug, PartialEq)]
pub enum CallArg {
    Expr(Expr),
    Spread(Expr),
}

/// One item of an array literal: a plain element or `...spread`.
#[derive(Debug, PartialEq)]
pub enum ArrayItem {
    Expr(Expr),
    Spread(Expr),
}

/// One item of an object literal.
#[derive(Debug, PartialEq)]
pub enum ObjectItem {
    /// `{name}` — value is the in-scope binding.
    Shorthand(String),
    /// `{key: value}`.
    Prop(String, Expr),
    /// `{...expr}`.
    Spread(Expr),
}

/// `++` / `--`.
#[derive(Debug, Clone, Copy, PartialEq, Eq, Structural)]
pub enum UpdateOp {
    Inc,
    Dec,
}

/// A JSX element: tag, attributes and child expressions.
#[derive(Debug, PartialEq)]
pub struct Element {
    /// Tag name: a lowercase host tag (`"div"`), a component name
    /// (`"Counter"`), a dotted member tag (`"Ctx.Provider"`), or empty for a
    /// fragment `<>...</>`.
    pub tag: String,
    /// Whether the tag names a component (uppercase or dotted).
    pub is_component: bool,
    /// JSX attributes.
    pub props: Vec<Prop>,
    /// Child expressions.
    pub children: Vec<Expr>,
}

/// A JSX attribute: `name={expr}`, `name="text"`, or the boolean shorthand
/// `name` (value `None`).
#[derive(Debug, PartialEq)]
pub struct Prop {
    pub name: String,
    pub value: Option<Expr>,
}

} // verus!
