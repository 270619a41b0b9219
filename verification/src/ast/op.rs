//! Binary and unary operators of the language.

use vstd::prelude::*;

verus! {

/// Binary operators (arithmetic, comparison, logical).
#[derive(Debug, Clone, Copy, PartialEq, Eq, Hash, Structural)]
pub enum BinOp {
    Add,
    Sub,
    Mul,
    Div,
    Mod,
    Eq,
    Neq,
    /// `===` (strict equality).
    StrictEq,
    /// `!==`
    StrictNeq,
    Lt,
    Gt,
    Le,
    Ge,
    And,
    Or,
    Nullish,
    /// `|` — bitwise OR on int32-coerced operands.
    BitOr,
}

/// The source spelling of a binary operator.
pub open spec fn binop_text(op: BinOp) -> Seq<char> {
    match op {
        BinOp::Add => seq!['+'],
        BinOp::Sub => seq!['-'],
        BinOp::Mul => seq!['*'],
        BinOp::Div => seq!['/'],
        BinOp::Mod => seq!['%'],
        BinOp::Eq => seq!['=', '='],
        BinOp::StrictEq => seq!['=', '=', '='],
        BinOp::Neq => seq!['!', '='],
        BinOp::StrictNeq => seq!['!', '=', '='],
        BinOp::Lt => seq!['<'],
        BinOp::Gt => seq!['>'],
        BinOp::Le => seq!['<', '='],
        BinOp::Ge => seq!['>', '='],
        BinOp::And => seq!['&', '&'],
        BinOp::Or => seq!['|', '|'],
        BinOp::Nullish => seq!['?', '?'],
        BinOp::BitOr => seq!['|'],
    }
}

impl BinOp {
    /// The operator's textual spelling as it appears in source.
    pub fn as_str(self) -> (r: &'static str)
        ensures r@ == binop_text(self),
    {
        let r = match self {
            BinOp::Add => "+",
            BinOp::Sub => "-",
            BinOp::Mul => "*",
            BinOp::Div => "/",
            BinOp::Mod => "%",
            BinOp::Eq => "==",
            BinOp::StrictEq => "===",
            BinOp::Neq => "!=",
            BinOp::StrictNeq => "!==",
            BinOp::Lt => "<",
            BinOp::Gt => ">",
            BinOp::Le => "<=",
            BinOp::Ge => ">=",
            BinOp::And => "&&",
            BinOp::Or => "||",
            BinOp::Nullish => "??",
            BinOp::BitOr => "|",
        };
        proof {
            reveal_strlit("+");
            reveal_strlit("-");
            reveal_strlit("*");
            reveal_strlit("/");
            reveal_strlit("%");
            reveal_strlit("==");
            reveal_strlit("===");
            reveal_strlit("!=");
            reveal_strlit("!==");
            reveal_strlit("<");
            reveal_strlit(">");
            reveal_strlit("<=");
            reveal_strlit(">=");
            reveal_strlit("&&");
            reveal_strlit("||");
            reveal_strlit("??");
            reveal_strlit("|");
        }
        r
    }
}

/// Unary operators.
#[derive(Debug, Clone, Copy, PartialEq, Eq, Hash, Structural)]
pub enum UnOp {
    Neg,
    Not,
}

/// The source spelling of a unary operator.
pub open spec fn unop_text(op: UnOp) -> Seq<char> {
    match op {
        UnOp::Neg => seq!['-'],
        UnOp::Not => seq!['!'],
    }
}

impl UnOp {
    /// The operator's textual spelling as it appears in source.
    pub fn as_str(self) -> (r: &'static str)
        ensures r@ == unop_text(self),
    {
        proof {
            reveal_strlit("-");
            reveal_strlit("!");
        }
        match self {
            UnOp::Neg => "-",
            UnOp::Not => "!",
        }
    }
}

} // verus!
