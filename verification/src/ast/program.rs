//! Top-level declarations, statements and binding patterns.

use vstd::prelude::*;
use crate::ast::expr::Expr;

verus! {

/// A top-level declaration of an R2N source file.
#[derive(Debug, PartialEq)]
pub enum Decl {
    /// `component Name(params) { stmts }`
    Component(Component),
    /// `class Name extends Base { state = ...; method() {...} }`
    Class(ClassComponent),
    /// `import ... from "module";`
    Import(Import),
    /// `export default Name;` — the root component of the app.
    ExportDefault(String),
    /// `export { a, b as c };`
    ExportNamed(ExportNamed),
    /// `function* name(params) { ... }`
    GeneratorFn(GeneratorFn),
    /// `function name(params) { ... }`
    FuncDecl(FuncDecl),
    /// `export function name() {}` / `export const name = expr;`
    ExportDecl(ExportDecl),
    /// Top-level `let`/`const` binding.
    TopLevel { kind: DeclKind, pattern: Pattern, value: Expr },
}

/// A plain function declaration.
#[derive(Debug, PartialEq)]
pub struct FuncDecl {
    pub name: String,
    pub params: Vec<Param>,
    pub body: Vec<Stmt>,
}

/// One function parameter: a binding pattern with an optional default, or a
/// `...rest` name.
#[derive(Debug, PartialEq)]
pub struct Param {
    pub pattern: Pattern,
    pub default: Option<Expr>,
    pub rest: bool,
}

/// An inline-exported declaration.
#[derive(Debug, PartialEq)]
pub enum ExportDecl {
    Function(FuncDecl),
    Const { name: String, value: Expr },
}

/// A top-level generator function.
#[derive(Debug, PartialEq)]
pub struct GeneratorFn {
    pub name: String,
    pub params: Vec<Param>,
    pub body: Vec<Stmt>,
}

/// `export { a, b as c };` as `(local, exported)` pairs.
#[derive(Debug, PartialEq)]
pub struct ExportNamed {
    pub names: Vec<(String, String)>,
}

/// A component definition.
#[derive(Debug, PartialEq)]
pub struct Component {
    pub name: String,
    pub params: Vec<Param>,
    pub body: Vec<Stmt>,
}

/// A class component `class Name extends Base`.
#[derive(Debug, PartialEq)]
pub struct ClassComponent {
    pub name: String,
    pub extends: Option<String>,
    /// The `state = expr;` initializer.
    pub state: Option<Expr>,
    pub methods: Vec<Method>,
}

/// A class method `name(params) { body }`.
#[derive(Debug, PartialEq)]
pub struct Method {
    pub name: String,
    pub params: Vec<Param>,
    pub body: Vec<Stmt>,
}

/// `import ... from "path";` with optional default, named (`(imported,
/// local)` pairs) and namespace bindings; all empty for `import "path";`.
#[derive(Debug, PartialEq)]
pub struct Import {
    pub default_: Option<String>,
    pub named: Vec<(String, String)>,
    pub namespace: Option<String>,
    pub path: String,
}

impl Import {
    /// True when the import binds nothing (side-effect-only `import "path"`).
    pub fn is_side_effect(&self) -> (r: bool)
        ensures r == (self.default_ is None && self.namespace is None && self.named@.len() == 0),
    {
        self.default_.is_none() && self.namespace.is_none() && self.named.len() == 0
    }
}

/// A statement of a function or component body.
#[derive(Debug, PartialEq)]
pub enum Stmt {
    Let { name: String, value: Expr },
    Const { name: String, value: Expr },
    Destructure { kind: DeclKind, pattern: Pattern, value: Expr },
    Return(Expr),
    Expr(Expr),
    If { cond: Expr, then: Vec<Stmt>, else_: Option<Vec<Stmt>> },
    While { cond: Expr, body: Vec<Stmt> },
    For { init: Option<Box<Stmt>>, cond: Option<Expr>, update: Option<Expr>, body: Vec<Stmt> },
    Switch { disc: Expr, cases: Vec<(Option<Expr>, Vec<Stmt>)> },
    Break,
    Continue,
}

/// `let` vs `const`.
#[derive(Debug, Clone, Copy, PartialEq, Eq, Structural)]
pub enum DeclKind {
    Let,
    Const,
}

/// A binding pattern: `x = d`, `{a, b: c, ...rest}`, `[a, , b, ...rest]`.
#[derive(Debug, PartialEq)]
pub enum Pattern {
    Name { name: String, default: Option<Expr> },
    Object { props: Vec<ObjectProp>, rest: Option<String> },
    Array { items: Vec<Option<Pattern>>, rest: Option<String> },
}

/// One property of an object pattern; `alias` is `None` for shorthand.
#[derive(Debug, PartialEq)]
pub struct ObjectProp {
    pub key: String,
    pub alias: Option<Pattern>,
}

/// A complete program: declarations plus the root component name.
#[derive(Debug, PartialEq)]
pub struct Program {
    pub decls: Vec<Decl>,
    pub root: Option<String>,
}

impl Program {
    /// An empty program.
    pub fn new() -> (p: Program)
        ensures p.decls@.len() == 0, p.root is None,
    {
        Program { decls: Vec::new(), root: None }
    }
}

} // verus!
