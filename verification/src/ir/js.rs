//! The JS IR: the closure language components lower into, its operators
//! and their correspondence with the source operators.

use vstd::prelude::*;
use crate::ast::lit::Literal;
use crate::ast::op::{binop_text, unop_text, BinOp, UnOp};
use crate::ir::react::ReactNode;

verus! {

/// An expression of the JS IR.
#[derive(Debug, PartialEq)]
pub enum JsExpr {
    /// A compile-time literal.
    Lit(Literal),
    /// A reference to a name in scope.
    Var(String),
    /// Member access: `base.prop`.
    Get { base: Box<JsExpr>, prop: String },
    /// Computed member access: `base[key]`.
    Index { base: Box<JsExpr>, key: Box<JsExpr> },
    /// A binary operation.
    Bin { op: JsBinOp, left: Box<JsExpr>, right: Box<JsExpr> },
    /// A unary operation.
    Un { op: JsUnOp, expr: Box<JsExpr> },
    /// A call of a function value.
    Call { callee: Box<JsExpr>, args: Vec<JsExpr> },
    /// A spread argument `...e` of a call.
    SpreadArg(Box<JsExpr>),
    /// `new callee(args...)`.
    New { callee: Box<JsExpr>, args: Vec<JsExpr> },
    /// A closure with `params`, capturing `captures`, evaluating `body`.
    Closure { params: Vec<String>, captures: Vec<String>, body: Box<JsExpr> },
    /// An array literal.
    Array(Vec<JsArrayItem>),
    /// An object literal.
    Object(Vec<JsObjectItem>),
    /// A loop: `cond`, `body`, then `step` on each turn.
    While { cond: Box<JsExpr>, body: Box<JsExpr>, step: Option<Box<JsExpr>> },
    /// A `switch` over `disc`.
    Switch { disc: Box<JsExpr>, cases: Vec<SwitchCase>, default: Option<Vec<JsExpr>> },
    /// `break`.
    Break,
    /// `continue`.
    Continue,
    /// `return` with an optional value.
    Return(Option<Box<JsExpr>>),
    /// `++`/`--` on `target`, before or after reading it.
    Update { inc: bool, target: Box<JsExpr>, prefix: bool },
    /// A block: its expressions in order, valued by the last.
    Block(Vec<JsExpr>),
    /// `target = value`.
    Assign { target: Box<JsExpr>, value: Box<JsExpr> },
    /// `cond ? then : else_`.
    If { cond: Box<JsExpr>, then: Box<JsExpr>, else_: Box<JsExpr> },
    /// An async function, split at each `await` into segments.
    AsyncFn { params: Vec<String>, segments: Vec<JsAsyncSegment> },
    /// `throw value`.
    Throw { value: Box<JsExpr> },
    /// `try { block } catch (catch_param) { catch } finally { finally }`.
    Try {
        block: Vec<JsExpr>,
        catch_param: Option<String>,
        catch: Option<Vec<JsExpr>>,
        finally: Option<Vec<JsExpr>>,
    },
    /// A builtin referred to by name.
    Builtin(String),
    /// React nodes handed to a component as its `children`.
    Children(Vec<ReactNode>),
}

/// An item of an array literal.
#[derive(Debug, PartialEq)]
pub enum JsArrayItem {
    Expr(JsExpr),
    Spread(JsExpr),
}

/// An item of an object literal.
#[derive(Debug, PartialEq)]
pub enum JsObjectItem {
    Shorthand(String),
    Prop(String, JsExpr),
    Spread(JsExpr),
}

/// One `case` of a `switch`: its test and its body.
#[derive(Debug, PartialEq)]
pub struct SwitchCase {
    pub test: JsExpr,
    pub body: Vec<JsExpr>,
}

/// One await-delimited segment of an async function: `stmts` run in order,
/// then the segment suspends on `await_expr` when it has one.
#[derive(Debug, PartialEq)]
pub struct JsAsyncSegment {
    pub stmts: Vec<JsExpr>,
    pub await_expr: Option<Box<JsExpr>>,
    pub await_bind: Option<String>,
    pub await_completes: bool,
}

/// Binary operators of the JS IR.
#[derive(Debug, Clone, Copy, PartialEq, Eq, Hash, Structural)]
pub enum JsBinOp {
    Add,
    Sub,
    Mul,
    Div,
    Mod,
    Eq,
    Neq,
    StrictEq,
    StrictNeq,
    Lt,
    Gt,
    Le,
    Ge,
    And,
    Or,
    /// `??`: the left operand unless it is null or undefined.
    Nullish,
    /// `|` on int32-coerced operands.
    BitOr,
}

/// Unary operators of the JS IR.
#[derive(Debug, Clone, Copy, PartialEq, Eq, Hash, Structural)]
pub enum JsUnOp {
    Neg,
    Not,
}

/// The JavaScript spelling of a JS IR binary operator.
pub open spec fn js_binop_text(op: JsBinOp) -> Seq<char> {
    match op {
        JsBinOp::Add => seq!['+'],
        JsBinOp::Sub => seq!['-'],
        JsBinOp::Mul => seq!['*'],
        JsBinOp::Div => seq!['/'],
        JsBinOp::Mod => seq!['%'],
        JsBinOp::Eq => seq!['=', '='],
        JsBinOp::Neq => seq!['!', '='],
        JsBinOp::StrictEq => seq!['=', '=', '='],
        JsBinOp::StrictNeq => seq!['!', '=', '='],
        JsBinOp::Lt => seq!['<'],
        JsBinOp::Gt => seq!['>'],
        JsBinOp::Le => seq!['<', '='],
        JsBinOp::Ge => seq!['>', '='],
        JsBinOp::And => seq!['&', '&'],
        JsBinOp::Or => seq!['|', '|'],
        JsBinOp::Nullish => seq!['?', '?'],
        JsBinOp::BitOr => seq!['|'],
    }
}

/// The JavaScript spelling of a JS IR unary operator.
pub open spec fn js_unop_text(op: JsUnOp) -> Seq<char> {
    match op {
        JsUnOp::Neg => seq!['-'],
        JsUnOp::Not => seq!['!'],
    }
}

impl JsBinOp {
    /// The operator's JavaScript spelling.
    pub fn as_str(self) -> (r: &'static str)
        ensures r@ == js_binop_text(self),
    {
        let r = match self {
            JsBinOp::Add => "+",
            JsBinOp::Sub => "-",
            JsBinOp::Mul => "*",
            JsBinOp::Div => "/",
            JsBinOp::Mod => "%",
            JsBinOp::Eq => "==",
            JsBinOp::Neq => "!=",
            JsBinOp::StrictEq => "===",
            JsBinOp::StrictNeq => "!==",
            JsBinOp::Lt => "<",
            JsBinOp::Gt => ">",
            JsBinOp::Le => "<=",
            JsBinOp::Ge => ">=",
            JsBinOp::And => "&&",
            JsBinOp::Or => "||",
            JsBinOp::Nullish => "??",
            JsBinOp::BitOr => "|",
        };
        proof {
            reveal_strlit("+");
            reveal_strlit("-");
            reveal_strlit("*");
            reveal_strlit("/");
            reveal_strlit("%");
            reveal_strlit("==");
            reveal_strlit("!=");
            reveal_strlit("===");
            reveal_strlit("!==");
            reveal_strlit("<");
            reveal_strlit(">");
            reveal_strlit("<=");
            reveal_strlit(">=");
            reveal_strlit("&&");
            reveal_strlit("||");
            reveal_strlit("??");
            reveal_strlit("|");
        }
        r
    }
}

impl JsUnOp {
    /// The operator's JavaScript spelling.
    pub fn as_str(self) -> (r: &'static str)
        ensures r@ == js_unop_text(self),
    {
        proof {
            reveal_strlit("-");
            reveal_strlit("!");
        }
        match self {
            JsUnOp::Neg => "-",
            JsUnOp::Not => "!",
        }
    }
}

/// The JS IR operator a source binary operator lowers to.
pub fn lower_binop(op: BinOp) -> (r: JsBinOp)
    ensures js_binop_text(r) == binop_text(op),
{
    match op {
        BinOp::Add => JsBinOp::Add,
        BinOp::Sub => JsBinOp::Sub,
        BinOp::Mul => JsBinOp::Mul,
        BinOp::Div => JsBinOp::Div,
        BinOp::Mod => JsBinOp::Mod,
        BinOp::Eq => JsBinOp::Eq,
        BinOp::Neq => JsBinOp::Neq,
        BinOp::StrictEq => JsBinOp::StrictEq,
        BinOp::StrictNeq => JsBinOp::StrictNeq,
        BinOp::Lt => JsBinOp::Lt,
        BinOp::Gt => JsBinOp::Gt,
        BinOp::Le => JsBinOp::Le,
        BinOp::Ge => JsBinOp::Ge,
        BinOp::And => JsBinOp::And,
        BinOp::Or => JsBinOp::Or,
        BinOp::Nullish => JsBinOp::Nullish,
        BinOp::BitOr => JsBinOp::BitOr,
    }
}

/// The JS IR operator a source unary operator lowers to.
pub fn lower_unop(op: UnOp) -> (r: JsUnOp)
    ensures js_unop_text(r) == unop_text(op),
{
    match op {
        UnOp::Neg => JsUnOp::Neg,
        UnOp::Not => JsUnOp::Not,
    }
}

} // verus!
