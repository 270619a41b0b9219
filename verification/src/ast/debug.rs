//! The derived `Debug` text of expressions, statements and patterns, as
//! `{:?}` prints it: a variant's name, then its fields in round brackets
//! or as `name: value` pairs in braces; lists in square brackets; strings
//! quoted and escaped as std does.

use vstd::prelude::*;
use crate::ast::expr::{ArrayItem, CallArg, Element, Expr, ObjectItem, Prop, UpdateOp};
use crate::ast::lit::Literal;
use crate::ast::op::{BinOp, UnOp};
use crate::ast::program::{DeclKind, ObjectProp, Param, Pattern, Stmt};
use crate::ast::render::{debug_quoted, debug_str};
use crate::text::{append_chars, push_str, signed_decimal, signed_decimal_chars};

verus! {

/// The `Debug` text of a `BinOp`: its variant's name.
pub open spec fn binop_name(x: BinOp) -> Seq<char> {
    match x {
        BinOp::Add => "Add"@,
        BinOp::Sub => "Sub"@,
        BinOp::Mul => "Mul"@,
        BinOp::Div => "Div"@,
        BinOp::Mod => "Mod"@,
        BinOp::Eq => "Eq"@,
        BinOp::Neq => "Neq"@,
        BinOp::StrictEq => "StrictEq"@,
        BinOp::StrictNeq => "StrictNeq"@,
        BinOp::Lt => "Lt"@,
        BinOp::Gt => "Gt"@,
        BinOp::Le => "Le"@,
        BinOp::Ge => "Ge"@,
        BinOp::And => "And"@,
        BinOp::Or => "Or"@,
        BinOp::Nullish => "Nullish"@,
        BinOp::BitOr => "BitOr"@,
    }
}

fn binop_name_str(x: BinOp) -> (r: &'static str)
    ensures r@ == binop_name(x),
{
    match x {
        BinOp::Add => "Add",
        BinOp::Sub => "Sub",
        BinOp::Mul => "Mul",
        BinOp::Div => "Div",
        BinOp::Mod => "Mod",
        BinOp::Eq => "Eq",
        BinOp::Neq => "Neq",
        BinOp::StrictEq => "StrictEq",
        BinOp::StrictNeq => "StrictNeq",
        BinOp::Lt => "Lt",
        BinOp::Gt => "Gt",
        BinOp::Le => "Le",
        BinOp::Ge => "Ge",
        BinOp::And => "And",
        BinOp::Or => "Or",
        BinOp::Nullish => "Nullish",
        BinOp::BitOr => "BitOr",
    }
}

/// The `Debug` text of a `UnOp`: its variant's name.
pub open spec fn unop_name(x: UnOp) -> Seq<char> {
    match x {
        UnOp::Neg => "Neg"@,
        UnOp::Not => "Not"@,
    }
}

fn unop_name_str(x: UnOp) -> (r: &'static str)
    ensures r@ == unop_name(x),
{
    match x {
        UnOp::Neg => "Neg",
        UnOp::Not => "Not",
    }
}

/// The `Debug` text of a `UpdateOp`: its variant's name.
pub open spec fn updop_name(x: UpdateOp) -> Seq<char> {
    match x {
        UpdateOp::Inc => "Inc"@,
        UpdateOp::Dec => "Dec"@,
    }
}

fn updop_name_str(x: UpdateOp) -> (r: &'static str)
    ensures r@ == updop_name(x),
{
    match x {
        UpdateOp::Inc => "Inc",
        UpdateOp::Dec => "Dec",
    }
}

/// The `Debug` text of a `DeclKind`: its variant's name.
pub open spec fn declkind_name(x: DeclKind) -> Seq<char> {
    match x {
        DeclKind::Let => "Let"@,
        DeclKind::Const => "Const"@,
    }
}

fn declkind_name_str(x: DeclKind) -> (r: &'static str)
    ensures r@ == declkind_name(x),
{
    match x {
        DeclKind::Let => "Let",
        DeclKind::Const => "Const",
    }
}

/// The `Debug` text of a literal.
pub open spec fn dbg_lit(l: Literal) -> Seq<char> {
    match l {
        Literal::Int(i) => "Int("@ + signed_decimal(i as int) + ")"@,
        Literal::Float(t) => "Float("@ + debug_quoted(t@) + ")"@,
        Literal::String(s) => "String("@ + debug_quoted(s@) + ")"@,
        Literal::Bool(b) => "Bool("@ + (if b { "true"@ } else { "false"@ }) + ")"@,
        Literal::Null => "Null"@,
        Literal::Undefined => "Undefined"@,
    }
}

fn write_dbg_lit(l: &Literal, out: &mut Vec<char>)
    ensures final(out)@ == old(out)@ + dbg_lit(*l),
{
    let ghost start = out@;
    match l {
        Literal::Int(i) => {
            push_str(out, "Int(");
            let d = signed_decimal_chars(*i);
            append_chars(out, &d);
            push_str(out, ")");
        },
        Literal::Float(t) => {
            push_str(out, "Float(");
            let q = debug_str(t.as_str());
            push_str(out, q.as_str());
            push_str(out, ")");
        },
        Literal::String(t) => {
            push_str(out, "String(");
            let q = debug_str(t.as_str());
            push_str(out, q.as_str());
            push_str(out, ")");
        },
        Literal::Bool(b) => {
            push_str(out, "Bool(");
            if *b { push_str(out, "true"); } else { push_str(out, "false"); }
            push_str(out, ")");
        },
        Literal::Null => push_str(out, "Null"),
        Literal::Undefined => push_str(out, "Undefined"),
    }
    assert(out@ =~= start + dbg_lit(*l));
}

/// The `Debug` text of a list: its items' texts, comma-separated, in brackets.
pub closed spec fn dbg_exprs(s: Seq<Expr>) -> Seq<char>
    decreases s, 2nat,
{
    "["@ + dbg_expr_items(s) + "]"@
}

pub open spec fn dbg_expr_items(s: Seq<Expr>) -> Seq<char>
    decreases s, 1nat,
{
    if s.len() == 0 {
        Seq::empty()
    } else if s.len() == 1 {
        dbg_expr(s[0])
    } else {
        dbg_expr_items(s.drop_last()) + ", "@ + dbg_expr(s.last())
    }
}

pub(crate) fn write_dbg_exprs(v: &Vec<Expr>, out: &mut Vec<char>)
    ensures final(out)@ == old(out)@ + dbg_exprs(v@),
    decreases v@, 2nat,
{
    let ghost start = out@;
    push_str(out, "[");
    let n = v.len();
    assert(v@.take(0) =~= Seq::<Expr>::empty());
    for i in 0..n
        invariant
            n == v@.len(),
            out@ == start + "["@ + dbg_expr_items(v@.take(i as int)),
    {
        assert(decreases_to!(v@ => v@[i as int]));
        let ghost before = out@;
        if i > 0 {
            push_str(out, ", ");
        }
        write_dbg_expr(&v[i], out);
        proof {
            let t = v@.take(i + 1);
            assert(t.drop_last() =~= v@.take(i as int));
            assert(t.last() == v@[i as int]);
            if i == 0 {
                assert(t.len() == 1 && t[0] == v@[0]);
            }
        }
        assert(out@ =~= start + "["@ + dbg_expr_items(v@.take(i + 1)));
    }
    assert(v@.take(n as int) =~= v@);
    push_str(out, "]");
    assert(out@ =~= start + dbg_exprs(v@));
}

/// The `Debug` text of a list: its items' texts, comma-separated, in brackets.
pub open spec fn dbg_call_args(s: Seq<CallArg>) -> Seq<char>
    decreases s, 2nat,
{
    "["@ + dbg_call_arg_items(s) + "]"@
}

pub open spec fn dbg_call_arg_items(s: Seq<CallArg>) -> Seq<char>
    decreases s, 1nat,
{
    if s.len() == 0 {
        Seq::empty()
    } else if s.len() == 1 {
        dbg_call_arg(s[0])
    } else {
        dbg_call_arg_items(s.drop_last()) + ", "@ + dbg_call_arg(s.last())
    }
}

fn write_dbg_call_args(v: &Vec<CallArg>, out: &mut Vec<char>)
    ensures final(out)@ == old(out)@ + dbg_call_args(v@),
    decreases v@, 2nat,
{
    let ghost start = out@;
    push_str(out, "[");
    let n = v.len();
    assert(v@.take(0) =~= Seq::<CallArg>::empty());
    for i in 0..n
        invariant
            n == v@.len(),
            out@ == start + "["@ + dbg_call_arg_items(v@.take(i as int)),
    {
        assert(decreases_to!(v@ => v@[i as int]));
        let ghost before = out@;
        if i > 0 {
            push_str(out, ", ");
        }
        write_dbg_call_arg(&v[i], out);
        proof {
            let t = v@.take(i + 1);
            assert(t.drop_last() =~= v@.take(i as int));
            assert(t.last() == v@[i as int]);
            if i == 0 {
                assert(t.len() == 1 && t[0] == v@[0]);
            }
        }
        assert(out@ =~= start + "["@ + dbg_call_arg_items(v@.take(i + 1)));
    }
    assert(v@.take(n as int) =~= v@);
    push_str(out, "]");
    assert(out@ =~= start + dbg_call_args(v@));
}

/// The `Debug` text of a list: its items' texts, comma-separated, in brackets.
pub open spec fn dbg_array_items(s: Seq<ArrayItem>) -> Seq<char>
    decreases s, 2nat,
{
    "["@ + dbg_array_item_items(s) + "]"@
}

pub open spec fn dbg_array_item_items(s: Seq<ArrayItem>) -> Seq<char>
    decreases s, 1nat,
{
    if s.len() == 0 {
        Seq::empty()
    } else if s.len() == 1 {
        dbg_array_item(s[0])
    } else {
        dbg_array_item_items(s.drop_last()) + ", "@ + dbg_array_item(s.last())
    }
}

fn write_dbg_array_items(v: &Vec<ArrayItem>, out: &mut Vec<char>)
    ensures final(out)@ == old(out)@ + dbg_array_items(v@),
    decreases v@, 2nat,
{
    let ghost start = out@;
    push_str(out, "[");
    let n = v.len();
    assert(v@.take(0) =~= Seq::<ArrayItem>::empty());
    for i in 0..n
        invariant
            n == v@.len(),
            out@ == start + "["@ + dbg_array_item_items(v@.take(i as int)),
    {
        assert(decreases_to!(v@ => v@[i as int]));
        let ghost before = out@;
        if i > 0 {
            push_str(out, ", ");
        }
        write_dbg_array_item(&v[i], out);
        proof {
            let t = v@.take(i + 1);
            assert(t.drop_last() =~= v@.take(i as int));
            assert(t.last() == v@[i as int]);
            if i == 0 {
                assert(t.len() == 1 && t[0] == v@[0]);
            }
        }
        assert(out@ =~= start + "["@ + dbg_array_item_items(v@.take(i + 1)));
    }
    assert(v@.take(n as int) =~= v@);
    push_str(out, "]");
    assert(out@ =~= start + dbg_array_items(v@));
}

/// The `Debug` text of a list: its items' texts, comma-separated, in brackets.
pub open spec fn dbg_object_items(s: Seq<ObjectItem>) -> Seq<char>
    decreases s, 2nat,
{
    "["@ + dbg_object_item_items(s) + "]"@
}

pub open spec fn dbg_object_item_items(s: Seq<ObjectItem>) -> Seq<char>
    decreases s, 1nat,
{
    if s.len() == 0 {
        Seq::empty()
    } else if s.len() == 1 {
        dbg_object_item(s[0])
    } else {
        dbg_object_item_items(s.drop_last()) + ", "@ + dbg_object_item(s.last())
    }
}

fn write_dbg_object_items(v: &Vec<ObjectItem>, out: &mut Vec<char>)
    ensures final(out)@ == old(out)@ + dbg_object_items(v@),
    decreases v@, 2nat,
{
    let ghost start = out@;
    push_str(out, "[");
    let n = v.len();
    assert(v@.take(0) =~= Seq::<ObjectItem>::empty());
    for i in 0..n
        invariant
            n == v@.len(),
            out@ == start + "["@ + dbg_object_item_items(v@.take(i as int)),
    {
        assert(decreases_to!(v@ => v@[i as int]));
        let ghost before = out@;
        if i > 0 {
            push_str(out, ", ");
        }
        write_dbg_object_item(&v[i], out);
        proof {
            let t = v@.take(i + 1);
            assert(t.drop_last() =~= v@.take(i as int));
            assert(t.last() == v@[i as int]);
            if i == 0 {
                assert(t.len() == 1 && t[0] == v@[0]);
            }
        }
        assert(out@ =~= start + "["@ + dbg_object_item_items(v@.take(i + 1)));
    }
    assert(v@.take(n as int) =~= v@);
    push_str(out, "]");
    assert(out@ =~= start + dbg_object_items(v@));
}

/// The `Debug` text of a list: its items' texts, comma-separated, in brackets.
pub open spec fn dbg_props(s: Seq<Prop>) -> Seq<char>
    decreases s, 2nat,
{
    "["@ + dbg_prop_items(s) + "]"@
}

pub open spec fn dbg_prop_items(s: Seq<Prop>) -> Seq<char>
    decreases s, 1nat,
{
    if s.len() == 0 {
        Seq::empty()
    } else if s.len() == 1 {
        dbg_prop(s[0])
    } else {
        dbg_prop_items(s.drop_last()) + ", "@ + dbg_prop(s.last())
    }
}

fn write_dbg_props(v: &Vec<Prop>, out: &mut Vec<char>)
    ensures final(out)@ == old(out)@ + dbg_props(v@),
    decreases v@, 2nat,
{
    let ghost start = out@;
    push_str(out, "[");
    let n = v.len();
    assert(v@.take(0) =~= Seq::<Prop>::empty());
    for i in 0..n
        invariant
            n == v@.len(),
            out@ == start + "["@ + dbg_prop_items(v@.take(i as int)),
    {
        assert(decreases_to!(v@ => v@[i as int]));
        let ghost before = out@;
        if i > 0 {
            push_str(out, ", ");
        }
        write_dbg_prop(&v[i], out);
        proof {
            let t = v@.take(i + 1);
            assert(t.drop_last() =~= v@.take(i as int));
            assert(t.last() == v@[i as int]);
            if i == 0 {
                assert(t.len() == 1 && t[0] == v@[0]);
            }
        }
        assert(out@ =~= start + "["@ + dbg_prop_items(v@.take(i + 1)));
    }
    assert(v@.take(n as int) =~= v@);
    push_str(out, "]");
    assert(out@ =~= start + dbg_props(v@));
}

/// The `Debug` text of a list: its items' texts, comma-separated, in brackets.
pub open spec fn dbg_params(s: Seq<Param>) -> Seq<char>
    decreases s, 2nat,
{
    "["@ + dbg_param_items(s) + "]"@
}

pub open spec fn dbg_param_items(s: Seq<Param>) -> Seq<char>
    decreases s, 1nat,
{
    if s.len() == 0 {
        Seq::empty()
    } else if s.len() == 1 {
        dbg_param(s[0])
    } else {
        dbg_param_items(s.drop_last()) + ", "@ + dbg_param(s.last())
    }
}

fn write_dbg_params(v: &Vec<Param>, out: &mut Vec<char>)
    ensures final(out)@ == old(out)@ + dbg_params(v@),
    decreases v@, 2nat,
{
    let ghost start = out@;
    push_str(out, "[");
    let n = v.len();
    assert(v@.take(0) =~= Seq::<Param>::empty());
    for i in 0..n
        invariant
            n == v@.len(),
            out@ == start + "["@ + dbg_param_items(v@.take(i as int)),
    {
        assert(decreases_to!(v@ => v@[i as int]));
        let ghost before = out@;
        if i > 0 {
            push_str(out, ", ");
        }
        write_dbg_param(&v[i], out);
        proof {
            let t = v@.take(i + 1);
            assert(t.drop_last() =~= v@.take(i as int));
            assert(t.last() == v@[i as int]);
            if i == 0 {
                assert(t.len() == 1 && t[0] == v@[0]);
            }
        }
        assert(out@ =~= start + "["@ + dbg_param_items(v@.take(i + 1)));
    }
    assert(v@.take(n as int) =~= v@);
    push_str(out, "]");
    assert(out@ =~= start + dbg_params(v@));
}

/// The `Debug` text of a list: its items' texts, comma-separated, in brackets.
pub open spec fn dbg_stmts(s: Seq<Stmt>) -> Seq<char>
    decreases s, 2nat,
{
    "["@ + dbg_stmt_items(s) + "]"@
}

pub open spec fn dbg_stmt_items(s: Seq<Stmt>) -> Seq<char>
    decreases s, 1nat,
{
    if s.len() == 0 {
        Seq::empty()
    } else if s.len() == 1 {
        dbg_stmt(s[0])
    } else {
        dbg_stmt_items(s.drop_last()) + ", "@ + dbg_stmt(s.last())
    }
}

fn write_dbg_stmts(v: &Vec<Stmt>, out: &mut Vec<char>)
    ensures final(out)@ == old(out)@ + dbg_stmts(v@),
    decreases v@, 2nat,
{
    let ghost start = out@;
    push_str(out, "[");
    let n = v.len();
    assert(v@.take(0) =~= Seq::<Stmt>::empty());
    for i in 0..n
        invariant
            n == v@.len(),
            out@ == start + "["@ + dbg_stmt_items(v@.take(i as int)),
    {
        assert(decreases_to!(v@ => v@[i as int]));
        let ghost before = out@;
        if i > 0 {
            push_str(out, ", ");
        }
        write_dbg_stmt(&v[i], out);
        proof {
            let t = v@.take(i + 1);
            assert(t.drop_last() =~= v@.take(i as int));
            assert(t.last() == v@[i as int]);
            if i == 0 {
                assert(t.len() == 1 && t[0] == v@[0]);
            }
        }
        assert(out@ =~= start + "["@ + dbg_stmt_items(v@.take(i + 1)));
    }
    assert(v@.take(n as int) =~= v@);
    push_str(out, "]");
    assert(out@ =~= start + dbg_stmts(v@));
}

/// The `Debug` text of a list: its items' texts, comma-separated, in brackets.
pub open spec fn dbg_object_props(s: Seq<ObjectProp>) -> Seq<char>
    decreases s, 2nat,
{
    "["@ + dbg_object_prop_items(s) + "]"@
}

pub open spec fn dbg_object_prop_items(s: Seq<ObjectProp>) -> Seq<char>
    decreases s, 1nat,
{
    if s.len() == 0 {
        Seq::empty()
    } else if s.len() == 1 {
        dbg_object_prop(s[0])
    } else {
        dbg_object_prop_items(s.drop_last()) + ", "@ + dbg_object_prop(s.last())
    }
}

fn write_dbg_object_props(v: &Vec<ObjectProp>, out: &mut Vec<char>)
    ensures final(out)@ == old(out)@ + dbg_object_props(v@),
    decreases v@, 2nat,
{
    let ghost start = out@;
    push_str(out, "[");
    let n = v.len();
    assert(v@.take(0) =~= Seq::<ObjectProp>::empty());
    for i in 0..n
        invariant
            n == v@.len(),
            out@ == start + "["@ + dbg_object_prop_items(v@.take(i as int)),
    {
        assert(decreases_to!(v@ => v@[i as int]));
        let ghost before = out@;
        if i > 0 {
            push_str(out, ", ");
        }
        write_dbg_object_prop(&v[i], out);
        proof {
            let t = v@.take(i + 1);
            assert(t.drop_last() =~= v@.take(i as int));
            assert(t.last() == v@[i as int]);
            if i == 0 {
                assert(t.len() == 1 && t[0] == v@[0]);
            }
        }
        assert(out@ =~= start + "["@ + dbg_object_prop_items(v@.take(i + 1)));
    }
    assert(v@.take(n as int) =~= v@);
    push_str(out, "]");
    assert(out@ =~= start + dbg_object_props(v@));
}

/// The `Debug` text of a list: its items' texts, comma-separated, in brackets.
pub open spec fn dbg_pattern_items(s: Seq<Option<Pattern>>) -> Seq<char>
    decreases s, 2nat,
{
    "["@ + dbg_pattern_item_items(s) + "]"@
}

pub open spec fn dbg_pattern_item_items(s: Seq<Option<Pattern>>) -> Seq<char>
    decreases s, 1nat,
{
    if s.len() == 0 {
        Seq::empty()
    } else if s.len() == 1 {
        dbg_opt_pattern(s[0])
    } else {
        dbg_pattern_item_items(s.drop_last()) + ", "@ + dbg_opt_pattern(s.last())
    }
}

fn write_dbg_pattern_items(v: &Vec<Option<Pattern>>, out: &mut Vec<char>)
    ensures final(out)@ == old(out)@ + dbg_pattern_items(v@),
    decreases v@, 2nat,
{
    let ghost start = out@;
    push_str(out, "[");
    let n = v.len();
    assert(v@.take(0) =~= Seq::<Option<Pattern>>::empty());
    for i in 0..n
        invariant
            n == v@.len(),
            out@ == start + "["@ + dbg_pattern_item_items(v@.take(i as int)),
    {
        assert(decreases_to!(v@ => v@[i as int]));
        let ghost before = out@;
        if i > 0 {
            push_str(out, ", ");
        }
        write_dbg_opt_pattern(&v[i], out);
        proof {
            let t = v@.take(i + 1);
            assert(t.drop_last() =~= v@.take(i as int));
            assert(t.last() == v@[i as int]);
            if i == 0 {
                assert(t.len() == 1 && t[0] == v@[0]);
            }
        }
        assert(out@ =~= start + "["@ + dbg_pattern_item_items(v@.take(i + 1)));
    }
    assert(v@.take(n as int) =~= v@);
    push_str(out, "]");
    assert(out@ =~= start + dbg_pattern_items(v@));
}

/// The `Debug` text of a list: its items' texts, comma-separated, in brackets.
pub open spec fn dbg_cases(s: Seq<(Option<Expr>, Vec<Stmt>)>) -> Seq<char>
    decreases s, 2nat,
{
    "["@ + dbg_case_items(s) + "]"@
}

pub open spec fn dbg_case_items(s: Seq<(Option<Expr>, Vec<Stmt>)>) -> Seq<char>
    decreases s, 1nat,
{
    if s.len() == 0 {
        Seq::empty()
    } else if s.len() == 1 {
        dbg_case(s[0])
    } else {
        dbg_case_items(s.drop_last()) + ", "@ + dbg_case(s.last())
    }
}

fn write_dbg_cases(v: &Vec<(Option<Expr>, Vec<Stmt>)>, out: &mut Vec<char>)
    ensures final(out)@ == old(out)@ + dbg_cases(v@),
    decreases v@, 2nat,
{
    let ghost start = out@;
    push_str(out, "[");
    let n = v.len();
    assert(v@.take(0) =~= Seq::<(Option<Expr>, Vec<Stmt>)>::empty());
    for i in 0..n
        invariant
            n == v@.len(),
            out@ == start + "["@ + dbg_case_items(v@.take(i as int)),
    {
        assert(decreases_to!(v@ => v@[i as int]));
        let ghost before = out@;
        if i > 0 {
            push_str(out, ", ");
        }
        write_dbg_case(&v[i], out);
        proof {
            let t = v@.take(i + 1);
            assert(t.drop_last() =~= v@.take(i as int));
            assert(t.last() == v@[i as int]);
            if i == 0 {
                assert(t.len() == 1 && t[0] == v@[0]);
            }
        }
        assert(out@ =~= start + "["@ + dbg_case_items(v@.take(i + 1)));
    }
    assert(v@.take(n as int) =~= v@);
    push_str(out, "]");
    assert(out@ =~= start + dbg_cases(v@));
}

/// The `Debug` text of a list of strings.
pub open spec fn dbg_strs(s: Seq<String>) -> Seq<char> {
    "["@ + dbg_str_items(s) + "]"@
}

pub open spec fn dbg_str_items(s: Seq<String>) -> Seq<char>
    decreases s.len(),
{
    if s.len() == 0 {
        Seq::empty()
    } else if s.len() == 1 {
        debug_quoted(s[0]@)
    } else {
        dbg_str_items(s.drop_last()) + ", "@ + debug_quoted(s.last()@)
    }
}

fn write_dbg_strs(v: &Vec<String>, out: &mut Vec<char>)
    ensures final(out)@ == old(out)@ + dbg_strs(v@),
{
    let ghost start = out@;
    push_str(out, "[");
    let n = v.len();
    assert(v@.take(0) =~= Seq::<String>::empty());
    for i in 0..n
        invariant
            n == v@.len(),
            out@ == start + "["@ + dbg_str_items(v@.take(i as int)),
    {
        if i > 0 {
            push_str(out, ", ");
        }
        let q = debug_str(v[i].as_str());
        push_str(out, q.as_str());
        proof {
            let t = v@.take(i + 1);
            assert(t.drop_last() =~= v@.take(i as int));
            assert(t.last() == v@[i as int]);
            if i == 0 {
                assert(t.len() == 1 && t[0] == v@[0]);
            }
        }
        assert(out@ =~= start + "["@ + dbg_str_items(v@.take(i + 1)));
    }
    assert(v@.take(n as int) =~= v@);
    push_str(out, "]");
    assert(out@ =~= start + dbg_strs(v@));
}

/// The `Debug` text of a `Expr`.
pub open spec fn dbg_expr(e: Expr) -> Seq<char>
    decreases e, 1nat,
{
    match e {
        Expr::Literal(l) => "Literal("@ + dbg_lit(l) + ")"@,
        Expr::Ident { name, is_component } =>
            "Ident { name: "@ + debug_quoted(name@) + ", is_component: "@
                + (if is_component { "true"@ } else { "false"@ }) + " }"@,
        Expr::Member { base, prop } =>
            "Member { base: "@ + dbg_expr(*base) + ", prop: "@ + debug_quoted(prop@) + " }"@,
        Expr::Binary { op, left, right } =>
            "Binary { op: "@ + binop_name(op) + ", left: "@ + dbg_expr(*left) + ", right: "@
                + dbg_expr(*right) + " }"@,
        Expr::Unary { op, expr } => "Unary { op: "@ + unop_name(op) + ", expr: "@ + dbg_expr(*expr) + " }"@,
        Expr::Call { callee, args } =>
            "Call { callee: "@ + dbg_expr(*callee) + ", args: "@ + dbg_call_args(args@) + " }"@,
        Expr::New { callee, args } =>
            "New { callee: "@ + dbg_expr(*callee) + ", args: "@ + dbg_call_args(args@) + " }"@,
        Expr::Assign { target, value } =>
            "Assign { target: "@ + dbg_expr(*target) + ", value: "@ + dbg_expr(*value) + " }"@,
        Expr::Element(el) => "Element("@ + dbg_element(el) + ")"@,
        Expr::Ternary { cond, then, else_ } =>
            "Ternary { cond: "@ + dbg_expr(*cond) + ", then: "@ + dbg_expr(*then) + ", else_: "@
                + dbg_expr(*else_) + " }"@,
        Expr::Array(items) => "Array("@ + dbg_array_items(items@) + ")"@,
        Expr::Object(items) => "Object("@ + dbg_object_items(items@) + ")"@,
        Expr::Template { parts, exprs } =>
            "Template { parts: "@ + dbg_strs(parts@) + ", exprs: "@ + dbg_exprs(exprs@) + " }"@,
        Expr::Update { op, target, prefix } =>
            "Update { op: "@ + updop_name(op) + ", target: "@ + dbg_expr(*target) + ", prefix: "@
                + (if prefix { "true"@ } else { "false"@ }) + " }"@,
        Expr::CompoundAssign { op, target, value } =>
            "CompoundAssign { op: "@ + binop_name(op) + ", target: "@ + dbg_expr(*target) + ", value: "@
                + dbg_expr(*value) + " }"@,
        Expr::Arrow { params, body, async_ } =>
            "Arrow { params: "@ + dbg_params(params@) + ", body: "@ + dbg_expr(*body) + ", async_: "@
                + (if async_ { "true"@ } else { "false"@ }) + " }"@,
        Expr::Function { name, params, body } =>
            "Function { name: "@ + dbg_opt_str(name) + ", params: "@ + dbg_params(params@) + ", body: "@
                + dbg_stmts(body@) + " }"@,
        Expr::Return(v) => "Return("@ + dbg_opt_box_expr(v) + ")"@,
        Expr::Yield { value, from_return } =>
            "Yield { value: "@ + dbg_opt_box_expr(value) + ", from_return: "@
                + (if from_return { "true"@ } else { "false"@ }) + " }"@,
        Expr::Await { value, from_return } =>
            "Await { value: "@ + dbg_expr(*value) + ", from_return: "@
                + (if from_return { "true"@ } else { "false"@ }) + " }"@,
        Expr::DynImport { specifier } => "DynImport { specifier: "@ + debug_quoted(specifier@) + " }"@,
        Expr::Block(es) => "Block("@ + dbg_exprs(es@) + ")"@,
        Expr::Throw(x) => "Throw("@ + dbg_expr(*x) + ")"@,
        Expr::While { cond, body } =>
            "While { cond: "@ + dbg_expr(*cond) + ", body: "@ + dbg_expr(*body) + " }"@,
        Expr::Break => "Break"@,
        Expr::Continue => "Continue"@,
        Expr::Try { block, catch_param, catch, finally } =>
            "Try { block: "@ + dbg_exprs(block@) + ", catch_param: "@ + dbg_opt_str(catch_param)
                + ", catch: "@ + dbg_opt_exprs(catch) + ", finally: "@ + dbg_opt_exprs(finally) + " }"@,
    }
}

fn write_dbg_expr(e: &Expr, out: &mut Vec<char>)
    ensures final(out)@ == old(out)@ + dbg_expr(*e),
    decreases e, 1nat,
{
    match e {
        Expr::Literal(..) => write_dbg_expr_literal(e, out),
        Expr::Ident { .. } => write_dbg_expr_ident(e, out),
        Expr::Member { .. } => write_dbg_expr_member(e, out),
        Expr::Binary { .. } => write_dbg_expr_binary(e, out),
        Expr::Unary { .. } => write_dbg_expr_unary(e, out),
        Expr::Call { .. } => write_dbg_expr_call(e, out),
        Expr::New { .. } => write_dbg_expr_new(e, out),
        Expr::Assign { .. } => write_dbg_expr_assign(e, out),
        Expr::Element(..) => write_dbg_expr_element(e, out),
        Expr::Ternary { .. } => write_dbg_expr_ternary(e, out),
        Expr::Array(..) => write_dbg_expr_array(e, out),
        Expr::Object(..) => write_dbg_expr_object(e, out),
        Expr::Template { .. } => write_dbg_expr_template(e, out),
        Expr::Update { .. } => write_dbg_expr_update(e, out),
        Expr::CompoundAssign { .. } => write_dbg_expr_compound_assign(e, out),
        Expr::Arrow { .. } => write_dbg_expr_arrow(e, out),
        Expr::Function { .. } => write_dbg_expr_function(e, out),
        Expr::Return(..) => write_dbg_expr_return(e, out),
        Expr::Yield { .. } => write_dbg_expr_yield(e, out),
        Expr::Await { .. } => write_dbg_expr_await(e, out),
        Expr::DynImport { .. } => write_dbg_expr_dyn_import(e, out),
        Expr::Block(..) => write_dbg_expr_block(e, out),
        Expr::Throw(..) => write_dbg_expr_throw(e, out),
        Expr::While { .. } => write_dbg_expr_while(e, out),
        Expr::Break => write_dbg_expr_break(e, out),
        Expr::Continue => write_dbg_expr_continue(e, out),
        Expr::Try { .. } => write_dbg_expr_try(e, out),
    }
}

fn write_dbg_expr_literal(e: &Expr, out: &mut Vec<char>)
    requires
        e is Literal,
    ensures
        final(out)@ == old(out)@ + dbg_expr(*e),
    decreases e, 0nat,
{
    let ghost start = out@;
    match e {
        Expr::Literal(l) => {
            push_str(out, "Literal(");
            write_dbg_lit(l, out);
            push_str(out, ")");
        },
        _ => {},
    }
    assert(out@ =~= start + dbg_expr(*e));
}

fn write_dbg_expr_ident(e: &Expr, out: &mut Vec<char>)
    requires
        e is Ident,
    ensures
        final(out)@ == old(out)@ + dbg_expr(*e),
    decreases e, 0nat,
{
    let ghost start = out@;
    match e {
        Expr::Ident { name, is_component } => {
            push_str(out, "Ident { name: ");
            { let q = debug_str(name.as_str()); push_str(out, q.as_str()); }
            push_str(out, ", is_component: ");
            if *is_component { push_str(out, "true"); } else { push_str(out, "false"); }
            push_str(out, " }");
        },
        _ => {},
    }
    assert(out@ =~= start + dbg_expr(*e));
}

fn write_dbg_expr_member(e: &Expr, out: &mut Vec<char>)
    requires
        e is Member,
    ensures
        final(out)@ == old(out)@ + dbg_expr(*e),
    decreases e, 0nat,
{
    let ghost start = out@;
    match e {
        Expr::Member { base, prop } => {
            push_str(out, "Member { base: ");
            write_dbg_expr(&**base, out);
            push_str(out, ", prop: ");
            { let q = debug_str(prop.as_str()); push_str(out, q.as_str()); }
            push_str(out, " }");
        },
        _ => {},
    }
    assert(out@ =~= start + dbg_expr(*e));
}

fn write_dbg_expr_binary(e: &Expr, out: &mut Vec<char>)
    requires
        e is Binary,
    ensures
        final(out)@ == old(out)@ + dbg_expr(*e),
    decreases e, 0nat,
{
    let ghost start = out@;
    match e {
        Expr::Binary { op, left, right } => {
            push_str(out, "Binary { op: ");
            push_str(out, binop_name_str(*op));
            push_str(out, ", left: ");
            write_dbg_expr(&**left, out);
            push_str(out, ", right: ");
            write_dbg_expr(&**right, out);
            push_str(out, " }");
        },
        _ => {},
    }
    assert(out@ =~= start + dbg_expr(*e));
}

fn write_dbg_expr_unary(e: &Expr, out: &mut Vec<char>)
    requires
        e is Unary,
    ensures
        final(out)@ == old(out)@ + dbg_expr(*e),
    decreases e, 0nat,
{
    let ghost start = out@;
    match e {
        Expr::Unary { op, expr } => {
            push_str(out, "Unary { op: ");
            push_str(out, unop_name_str(*op));
            push_str(out, ", expr: ");
            write_dbg_expr(&**expr, out);
            push_str(out, " }");
        },
        _ => {},
    }
    assert(out@ =~= start + dbg_expr(*e));
}

fn write_dbg_expr_call(e: &Expr, out: &mut Vec<char>)
    requires
        e is Call,
    ensures
        final(out)@ == old(out)@ + dbg_expr(*e),
    decreases e, 0nat,
{
    let ghost start = out@;
    match e {
        Expr::Call { callee, args } => {
            push_str(out, "Call { callee: ");
            write_dbg_expr(&**callee, out);
            push_str(out, ", args: ");
            write_dbg_call_args(args, out);
            push_str(out, " }");
        },
        _ => {},
    }
    assert(out@ =~= start + dbg_expr(*e));
}

fn write_dbg_expr_new(e: &Expr, out: &mut Vec<char>)
    requires
        e is New,
    ensures
        final(out)@ == old(out)@ + dbg_expr(*e),
    decreases e, 0nat,
{
    let ghost start = out@;
    match e {
        Expr::New { callee, args } => {
            push_str(out, "New { callee: ");
            write_dbg_expr(&**callee, out);
            push_str(out, ", args: ");
            write_dbg_call_args(args, out);
            push_str(out, " }");
        },
        _ => {},
    }
    assert(out@ =~= start + dbg_expr(*e));
}

fn write_dbg_expr_assign(e: &Expr, out: &mut Vec<char>)
    requires
        e is Assign,
    ensures
        final(out)@ == old(out)@ + dbg_expr(*e),
    decreases e, 0nat,
{
    let ghost start = out@;
    match e {
        Expr::Assign { target, value } => {
            push_str(out, "Assign { target: ");
            write_dbg_expr(&**target, out);
            push_str(out, ", value: ");
            write_dbg_expr(&**value, out);
            push_str(out, " }");
        },
        _ => {},
    }
    assert(out@ =~= start + dbg_expr(*e));
}

fn write_dbg_expr_element(e: &Expr, out: &mut Vec<char>)
    requires
        e is Element,
    ensures
        final(out)@ == old(out)@ + dbg_expr(*e),
    decreases e, 0nat,
{
    let ghost start = out@;
    match e {
        Expr::Element(el) => {
            push_str(out, "Element(");
            write_dbg_element(el, out);
            push_str(out, ")");
        },
        _ => {},
    }
    assert(out@ =~= start + dbg_expr(*e));
}

fn write_dbg_expr_ternary(e: &Expr, out: &mut Vec<char>)
    requires
        e is Ternary,
    ensures
        final(out)@ == old(out)@ + dbg_expr(*e),
    decreases e, 0nat,
{
    let ghost start = out@;
    match e {
        Expr::Ternary { cond, then, else_ } => {
            push_str(out, "Ternary { cond: ");
            write_dbg_expr(&**cond, out);
            push_str(out, ", then: ");
            write_dbg_expr(&**then, out);
            push_str(out, ", else_: ");
            write_dbg_expr(&**else_, out);
            push_str(out, " }");
        },
        _ => {},
    }
    assert(out@ =~= start + dbg_expr(*e));
}

fn write_dbg_expr_array(e: &Expr, out: &mut Vec<char>)
    requires
        e is Array,
    ensures
        final(out)@ == old(out)@ + dbg_expr(*e),
    decreases e, 0nat,
{
    let ghost start = out@;
    match e {
        Expr::Array(items) => {
            push_str(out, "Array(");
            write_dbg_array_items(items, out);
            push_str(out, ")");
        },
        _ => {},
    }
    assert(out@ =~= start + dbg_expr(*e));
}

fn write_dbg_expr_object(e: &Expr, out: &mut Vec<char>)
    requires
        e is Object,
    ensures
        final(out)@ == old(out)@ + dbg_expr(*e),
    decreases e, 0nat,
{
    let ghost start = out@;
    match e {
        Expr::Object(items) => {
            push_str(out, "Object(");
            write_dbg_object_items(items, out);
            push_str(out, ")");
        },
        _ => {},
    }
    assert(out@ =~= start + dbg_expr(*e));
}

fn write_dbg_expr_template(e: &Expr, out: &mut Vec<char>)
    requires
        e is Template,
    ensures
        final(out)@ == old(out)@ + dbg_expr(*e),
    decreases e, 0nat,
{
    let ghost start = out@;
    match e {
        Expr::Template { parts, exprs } => {
            push_str(out, "Template { parts: ");
            write_dbg_strs(parts, out);
            push_str(out, ", exprs: ");
            write_dbg_exprs(exprs, out);
            push_str(out, " }");
        },
        _ => {},
    }
    assert(out@ =~= start + dbg_expr(*e));
}

fn write_dbg_expr_update(e: &Expr, out: &mut Vec<char>)
    requires
        e is Update,
    ensures
        final(out)@ == old(out)@ + dbg_expr(*e),
    decreases e, 0nat,
{
    let ghost start = out@;
    match e {
        Expr::Update { op, target, prefix } => {
            push_str(out, "Update { op: ");
            push_str(out, updop_name_str(*op));
            push_str(out, ", target: ");
            write_dbg_expr(&**target, out);
            push_str(out, ", prefix: ");
            if *prefix { push_str(out, "true"); } else { push_str(out, "false"); }
            push_str(out, " }");
        },
        _ => {},
    }
    assert(out@ =~= start + dbg_expr(*e));
}

fn write_dbg_expr_compound_assign(e: &Expr, out: &mut Vec<char>)
    requires
        e is CompoundAssign,
    ensures
        final(out)@ == old(out)@ + dbg_expr(*e),
    decreases e, 0nat,
{
    let ghost start = out@;
    match e {
        Expr::CompoundAssign { op, target, value } => {
            push_str(out, "CompoundAssign { op: ");
            push_str(out, binop_name_str(*op));
            push_str(out, ", target: ");
            write_dbg_expr(&**target, out);
            push_str(out, ", value: ");
            write_dbg_expr(&**value, out);
            push_str(out, " }");
        },
        _ => {},
    }
    assert(out@ =~= start + dbg_expr(*e));
}

fn write_dbg_expr_arrow(e: &Expr, out: &mut Vec<char>)
    requires
        e is Arrow,
    ensures
        final(out)@ == old(out)@ + dbg_expr(*e),
    decreases e, 0nat,
{
    let ghost start = out@;
    match e {
        Expr::Arrow { params, body, async_ } => {
            push_str(out, "Arrow { params: ");
            write_dbg_params(params, out);
            push_str(out, ", body: ");
            write_dbg_expr(&**body, out);
            push_str(out, ", async_: ");
            if *async_ { push_str(out, "true"); } else { push_str(out, "false"); }
            push_str(out, " }");
        },
        _ => {},
    }
    assert(out@ =~= start + dbg_expr(*e));
}

fn write_dbg_expr_function(e: &Expr, out: &mut Vec<char>)
    requires
        e is Function,
    ensures
        final(out)@ == old(out)@ + dbg_expr(*e),
    decreases e, 0nat,
{
    let ghost start = out@;
    match e {
        Expr::Function { name, params, body } => {
            push_str(out, "Function { name: ");
            write_dbg_opt_str(name, out);
            push_str(out, ", params: ");
            write_dbg_params(params, out);
            push_str(out, ", body: ");
            write_dbg_stmts(body, out);
            push_str(out, " }");
        },
        _ => {},
    }
    assert(out@ =~= start + dbg_expr(*e));
}

fn write_dbg_expr_return(e: &Expr, out: &mut Vec<char>)
    requires
        e is Return,
    ensures
        final(out)@ == old(out)@ + dbg_expr(*e),
    decreases e, 0nat,
{
    let ghost start = out@;
    match e {
        Expr::Return(v) => {
            push_str(out, "Return(");
            write_dbg_opt_box_expr(v, out);
            push_str(out, ")");
        },
        _ => {},
    }
    assert(out@ =~= start + dbg_expr(*e));
}

fn write_dbg_expr_yield(e: &Expr, out: &mut Vec<char>)
    requires
        e is Yield,
    ensures
        final(out)@ == old(out)@ + dbg_expr(*e),
    decreases e, 0nat,
{
    let ghost start = out@;
    match e {
        Expr::Yield { value, from_return } => {
            push_str(out, "Yield { value: ");
            write_dbg_opt_box_expr(value, out);
            push_str(out, ", from_return: ");
            if *from_return { push_str(out, "true"); } else { push_str(out, "false"); }
            push_str(out, " }");
        },
        _ => {},
    }
    assert(out@ =~= start + dbg_expr(*e));
}

fn write_dbg_expr_await(e: &Expr, out: &mut Vec<char>)
    requires
        e is Await,
    ensures
        final(out)@ == old(out)@ + dbg_expr(*e),
    decreases e, 0nat,
{
    let ghost start = out@;
    match e {
        Expr::Await { value, from_return } => {
            push_str(out, "Await { value: ");
            write_dbg_expr(&**value, out);
            push_str(out, ", from_return: ");
            if *from_return { push_str(out, "true"); } else { push_str(out, "false"); }
            push_str(out, " }");
        },
        _ => {},
    }
    assert(out@ =~= start + dbg_expr(*e));
}

fn write_dbg_expr_dyn_import(e: &Expr, out: &mut Vec<char>)
    requires
        e is DynImport,
    ensures
        final(out)@ == old(out)@ + dbg_expr(*e),
    decreases e, 0nat,
{
    let ghost start = out@;
    match e {
        Expr::DynImport { specifier } => {
            push_str(out, "DynImport { specifier: ");
            { let q = debug_str(specifier.as_str()); push_str(out, q.as_str()); }
            push_str(out, " }");
        },
        _ => {},
    }
    assert(out@ =~= start + dbg_expr(*e));
}

fn write_dbg_expr_block(e: &Expr, out: &mut Vec<char>)
    requires
        e is Block,
    ensures
        final(out)@ == old(out)@ + dbg_expr(*e),
    decreases e, 0nat,
{
    let ghost start = out@;
    match e {
        Expr::Block(es) => {
            push_str(out, "Block(");
            write_dbg_exprs(es, out);
            push_str(out, ")");
        },
        _ => {},
    }
    assert(out@ =~= start + dbg_expr(*e));
}

fn write_dbg_expr_throw(e: &Expr, out: &mut Vec<char>)
    requires
        e is Throw,
    ensures
        final(out)@ == old(out)@ + dbg_expr(*e),
    decreases e, 0nat,
{
    let ghost start = out@;
    match e {
        Expr::Throw(x) => {
            push_str(out, "Throw(");
            write_dbg_expr(&**x, out);
            push_str(out, ")");
        },
        _ => {},
    }
    assert(out@ =~= start + dbg_expr(*e));
}

fn write_dbg_expr_while(e: &Expr, out: &mut Vec<char>)
    requires
        e is While,
    ensures
        final(out)@ == old(out)@ + dbg_expr(*e),
    decreases e, 0nat,
{
    let ghost start = out@;
    match e {
        Expr::While { cond, body } => {
            push_str(out, "While { cond: ");
            write_dbg_expr(&**cond, out);
            push_str(out, ", body: ");
            write_dbg_expr(&**body, out);
            push_str(out, " }");
        },
        _ => {},
    }
    assert(out@ =~= start + dbg_expr(*e));
}

fn write_dbg_expr_break(e: &Expr, out: &mut Vec<char>)
    requires
        e is Break,
    ensures
        final(out)@ == old(out)@ + dbg_expr(*e),
    decreases e, 0nat,
{
    let ghost start = out@;
    match e {
        Expr::Break => {
            push_str(out, "Break");
        },
        _ => {},
    }
    assert(out@ =~= start + dbg_expr(*e));
}

fn write_dbg_expr_continue(e: &Expr, out: &mut Vec<char>)
    requires
        e is Continue,
    ensures
        final(out)@ == old(out)@ + dbg_expr(*e),
    decreases e, 0nat,
{
    let ghost start = out@;
    match e {
        Expr::Continue => {
            push_str(out, "Continue");
        },
        _ => {},
    }
    assert(out@ =~= start + dbg_expr(*e));
}

#[verifier::spinoff_prover]
#[verifier::rlimit(100)]
fn write_dbg_expr_try(e: &Expr, out: &mut Vec<char>)
    requires
        e is Try,
    ensures
        final(out)@ == old(out)@ + dbg_expr(*e),
    decreases e, 0nat,
{
    let ghost start = out@;
    match e {
        Expr::Try { block, catch_param, catch, finally } => {
            push_str(out, "Try { block: ");
            write_dbg_exprs(block, out);
            push_str(out, ", catch_param: ");
            write_dbg_opt_str(catch_param, out);
            push_str(out, ", catch: ");
            write_dbg_opt_exprs(catch, out);
            push_str(out, ", finally: ");
            write_dbg_opt_exprs(finally, out);
            push_str(out, " }");
        },
        _ => {},
    }
    assert(out@ =~= start + dbg_expr(*e));
}

/// The `Debug` text of a `Stmt`.
pub open spec fn dbg_stmt(st: Stmt) -> Seq<char>
    decreases st, 1nat,
{
    match st {
        Stmt::Let { name, value } =>
            "Let { name: "@ + debug_quoted(name@) + ", value: "@ + dbg_expr(value) + " }"@,
        Stmt::Const { name, value } =>
            "Const { name: "@ + debug_quoted(name@) + ", value: "@ + dbg_expr(value) + " }"@,
        Stmt::Destructure { kind, pattern, value } =>
            "Destructure { kind: "@ + declkind_name(kind) + ", pattern: "@ + dbg_pattern(pattern)
                + ", value: "@ + dbg_expr(value) + " }"@,
        Stmt::Return(x) => "Return("@ + dbg_expr(x) + ")"@,
        Stmt::Expr(x) => "Expr("@ + dbg_expr(x) + ")"@,
        Stmt::If { cond, then, else_ } =>
            "If { cond: "@ + dbg_expr(cond) + ", then: "@ + dbg_stmts(then@) + ", else_: "@
                + dbg_opt_stmts(else_) + " }"@,
        Stmt::While { cond, body } =>
            "While { cond: "@ + dbg_expr(cond) + ", body: "@ + dbg_stmts(body@) + " }"@,
        Stmt::For { init, cond, update, body } =>
            "For { init: "@ + dbg_opt_box_stmt(init) + ", cond: "@ + dbg_opt_expr(cond) + ", update: "@
                + dbg_opt_expr(update) + ", body: "@ + dbg_stmts(body@) + " }"@,
        Stmt::Switch { disc, cases } =>
            "Switch { disc: "@ + dbg_expr(disc) + ", cases: "@ + dbg_cases(cases@) + " }"@,
        Stmt::Break => "Break"@,
        Stmt::Continue => "Continue"@,
    }
}

fn write_dbg_stmt(st: &Stmt, out: &mut Vec<char>)
    ensures final(out)@ == old(out)@ + dbg_stmt(*st),
    decreases st, 1nat,
{
    match st {
        Stmt::Let { .. } => write_dbg_stmt_let(st, out),
        Stmt::Const { .. } => write_dbg_stmt_const(st, out),
        Stmt::Destructure { .. } => write_dbg_stmt_destructure(st, out),
        Stmt::Return(..) => write_dbg_stmt_return(st, out),
        Stmt::Expr(..) => write_dbg_stmt_expr(st, out),
        Stmt::If { .. } => write_dbg_stmt_if(st, out),
        Stmt::While { .. } => write_dbg_stmt_while(st, out),
        Stmt::For { .. } => write_dbg_stmt_for(st, out),
        Stmt::Switch { .. } => write_dbg_stmt_switch(st, out),
        Stmt::Break => write_dbg_stmt_break(st, out),
        Stmt::Continue => write_dbg_stmt_continue(st, out),
    }
}

fn write_dbg_stmt_let(st: &Stmt, out: &mut Vec<char>)
    requires
        st is Let,
    ensures
        final(out)@ == old(out)@ + dbg_stmt(*st),
    decreases st, 0nat,
{
    let ghost start = out@;
    match st {
        Stmt::Let { name, value } => {
            push_str(out, "Let { name: ");
            { let q = debug_str(name.as_str()); push_str(out, q.as_str()); }
            push_str(out, ", value: ");
            write_dbg_expr(value, out);
            push_str(out, " }");
        },
        _ => {},
    }
    assert(out@ =~= start + dbg_stmt(*st));
}

fn write_dbg_stmt_const(st: &Stmt, out: &mut Vec<char>)
    requires
        st is Const,
    ensures
        final(out)@ == old(out)@ + dbg_stmt(*st),
    decreases st, 0nat,
{
    let ghost start = out@;
    match st {
        Stmt::Const { name, value } => {
            push_str(out, "Const { name: ");
            { let q = debug_str(name.as_str()); push_str(out, q.as_str()); }
            push_str(out, ", value: ");
            write_dbg_expr(value, out);
            push_str(out, " }");
        },
        _ => {},
    }
    assert(out@ =~= start + dbg_stmt(*st));
}

fn write_dbg_stmt_destructure(st: &Stmt, out: &mut Vec<char>)
    requires
        st is Destructure,
    ensures
        final(out)@ == old(out)@ + dbg_stmt(*st),
    decreases st, 0nat,
{
    let ghost start = out@;
    match st {
        Stmt::Destructure { kind, pattern, value } => {
            push_str(out, "Destructure { kind: ");
            push_str(out, declkind_name_str(*kind));
            push_str(out, ", pattern: ");
            write_dbg_pattern(pattern, out);
            push_str(out, ", value: ");
            write_dbg_expr(value, out);
            push_str(out, " }");
        },
        _ => {},
    }
    assert(out@ =~= start + dbg_stmt(*st));
}

fn write_dbg_stmt_return(st: &Stmt, out: &mut Vec<char>)
    requires
        st is Return,
    ensures
        final(out)@ == old(out)@ + dbg_stmt(*st),
    decreases st, 0nat,
{
    let ghost start = out@;
    match st {
        Stmt::Return(x) => {
            push_str(out, "Return(");
            write_dbg_expr(x, out);
            push_str(out, ")");
        },
        _ => {},
    }
    assert(out@ =~= start + dbg_stmt(*st));
}

fn write_dbg_stmt_expr(st: &Stmt, out: &mut Vec<char>)
    requires
        st is Expr,
    ensures
        final(out)@ == old(out)@ + dbg_stmt(*st),
    decreases st, 0nat,
{
    let ghost start = out@;
    match st {
        Stmt::Expr(x) => {
            push_str(out, "Expr(");
            write_dbg_expr(x, out);
            push_str(out, ")");
        },
        _ => {},
    }
    assert(out@ =~= start + dbg_stmt(*st));
}

fn write_dbg_stmt_if(st: &Stmt, out: &mut Vec<char>)
    requires
        st is If,
    ensures
        final(out)@ == old(out)@ + dbg_stmt(*st),
    decreases st, 0nat,
{
    let ghost start = out@;
    match st {
        Stmt::If { cond, then, else_ } => {
            push_str(out, "If { cond: ");
            write_dbg_expr(cond, out);
            push_str(out, ", then: ");
            write_dbg_stmts(then, out);
            push_str(out, ", else_: ");
            write_dbg_opt_stmts(else_, out);
            push_str(out, " }");
        },
        _ => {},
    }
    assert(out@ =~= start + dbg_stmt(*st));
}

fn write_dbg_stmt_while(st: &Stmt, out: &mut Vec<char>)
    requires
        st is While,
    ensures
        final(out)@ == old(out)@ + dbg_stmt(*st),
    decreases st, 0nat,
{
    let ghost start = out@;
    match st {
        Stmt::While { cond, body } => {
            push_str(out, "While { cond: ");
            write_dbg_expr(cond, out);
            push_str(out, ", body: ");
            write_dbg_stmts(body, out);
            push_str(out, " }");
        },
        _ => {},
    }
    assert(out@ =~= start + dbg_stmt(*st));
}

#[verifier::spinoff_prover]
#[verifier::rlimit(100)]
fn write_dbg_stmt_for(st: &Stmt, out: &mut Vec<char>)
    requires
        st is For,
    ensures
        final(out)@ == old(out)@ + dbg_stmt(*st),
    decreases st, 0nat,
{
    let ghost start = out@;
    match st {
        Stmt::For { init, cond, update, body } => {
            push_str(out, "For { init: ");
            write_dbg_opt_box_stmt(init, out);
            push_str(out, ", cond: ");
            write_dbg_opt_expr(cond, out);
            push_str(out, ", update: ");
            write_dbg_opt_expr(update, out);
            push_str(out, ", body: ");
            write_dbg_stmts(body, out);
            push_str(out, " }");
        },
        _ => {},
    }
    assert(out@ =~= start + dbg_stmt(*st));
}

fn write_dbg_stmt_switch(st: &Stmt, out: &mut Vec<char>)
    requires
        st is Switch,
    ensures
        final(out)@ == old(out)@ + dbg_stmt(*st),
    decreases st, 0nat,
{
    let ghost start = out@;
    match st {
        Stmt::Switch { disc, cases } => {
            push_str(out, "Switch { disc: ");
            write_dbg_expr(disc, out);
            push_str(out, ", cases: ");
            write_dbg_cases(cases, out);
            push_str(out, " }");
        },
        _ => {},
    }
    assert(out@ =~= start + dbg_stmt(*st));
}

fn write_dbg_stmt_break(st: &Stmt, out: &mut Vec<char>)
    requires
        st is Break,
    ensures
        final(out)@ == old(out)@ + dbg_stmt(*st),
    decreases st, 0nat,
{
    let ghost start = out@;
    match st {
        Stmt::Break => {
            push_str(out, "Break");
        },
        _ => {},
    }
    assert(out@ =~= start + dbg_stmt(*st));
}

fn write_dbg_stmt_continue(st: &Stmt, out: &mut Vec<char>)
    requires
        st is Continue,
    ensures
        final(out)@ == old(out)@ + dbg_stmt(*st),
    decreases st, 0nat,
{
    let ghost start = out@;
    match st {
        Stmt::Continue => {
            push_str(out, "Continue");
        },
        _ => {},
    }
    assert(out@ =~= start + dbg_stmt(*st));
}

/// The `Debug` text of a `Pattern`.
pub open spec fn dbg_pattern(p: Pattern) -> Seq<char>
    decreases p, 1nat,
{
    match p {
        Pattern::Name { name, default } =>
            "Name { name: "@ + debug_quoted(name@) + ", default: "@ + dbg_opt_expr(default) + " }"@,
        Pattern::Object { props, rest } =>
            "Object { props: "@ + dbg_object_props(props@) + ", rest: "@ + dbg_opt_str(rest) + " }"@,
        Pattern::Array { items, rest } =>
            "Array { items: "@ + dbg_pattern_items(items@) + ", rest: "@ + dbg_opt_str(rest) + " }"@,
    }
}

#[verifier::spinoff_prover]
#[verifier::rlimit(100)]
fn write_dbg_pattern(p: &Pattern, out: &mut Vec<char>)
    ensures final(out)@ == old(out)@ + dbg_pattern(*p),
    decreases p, 1nat,
{
    let ghost start = out@;
    match p {
        Pattern::Name { name, default } => {
            push_str(out, "Name { name: ");
            { let q = debug_str(name.as_str()); push_str(out, q.as_str()); }
            push_str(out, ", default: ");
            write_dbg_opt_expr(default, out);
            push_str(out, " }");
        },
        Pattern::Object { props, rest } => {
            push_str(out, "Object { props: ");
            write_dbg_object_props(props, out);
            push_str(out, ", rest: ");
            write_dbg_opt_str(rest, out);
            push_str(out, " }");
        },
        Pattern::Array { items, rest } => {
            push_str(out, "Array { items: ");
            write_dbg_pattern_items(items, out);
            push_str(out, ", rest: ");
            write_dbg_opt_str(rest, out);
            push_str(out, " }");
        },
    }
    assert(out@ =~= start + dbg_pattern(*p));
}

/// The `Debug` text of a `CallArg`.
pub open spec fn dbg_call_arg(a: CallArg) -> Seq<char>
    decreases a, 1nat,
{
    match a {
        CallArg::Expr(x) => "Expr("@ + dbg_expr(x) + ")"@,
        CallArg::Spread(x) => "Spread("@ + dbg_expr(x) + ")"@,
    }
}

#[verifier::spinoff_prover]
#[verifier::rlimit(100)]
fn write_dbg_call_arg(a: &CallArg, out: &mut Vec<char>)
    ensures final(out)@ == old(out)@ + dbg_call_arg(*a),
    decreases a, 1nat,
{
    let ghost start = out@;
    match a {
        CallArg::Expr(x) => {
            push_str(out, "Expr(");
            write_dbg_expr(x, out);
            push_str(out, ")");
        },
        CallArg::Spread(x) => {
            push_str(out, "Spread(");
            write_dbg_expr(x, out);
            push_str(out, ")");
        },
    }
    assert(out@ =~= start + dbg_call_arg(*a));
}

/// The `Debug` text of a `ArrayItem`.
pub open spec fn dbg_array_item(a: ArrayItem) -> Seq<char>
    decreases a, 1nat,
{
    match a {
        ArrayItem::Expr(x) => "Expr("@ + dbg_expr(x) + ")"@,
        ArrayItem::Spread(x) => "Spread("@ + dbg_expr(x) + ")"@,
    }
}

#[verifier::spinoff_prover]
#[verifier::rlimit(100)]
fn write_dbg_array_item(a: &ArrayItem, out: &mut Vec<char>)
    ensures final(out)@ == old(out)@ + dbg_array_item(*a),
    decreases a, 1nat,
{
    let ghost start = out@;
    match a {
        ArrayItem::Expr(x) => {
            push_str(out, "Expr(");
            write_dbg_expr(x, out);
            push_str(out, ")");
        },
        ArrayItem::Spread(x) => {
            push_str(out, "Spread(");
            write_dbg_expr(x, out);
            push_str(out, ")");
        },
    }
    assert(out@ =~= start + dbg_array_item(*a));
}

/// The `Debug` text of a `ObjectItem`.
pub open spec fn dbg_object_item(a: ObjectItem) -> Seq<char>
    decreases a, 1nat,
{
    match a {
        ObjectItem::Shorthand(k) => "Shorthand("@ + debug_quoted(k@) + ")"@,
        ObjectItem::Prop(k, x) => "Prop("@ + debug_quoted(k@) + ", "@ + dbg_expr(x) + ")"@,
        ObjectItem::Spread(x) => "Spread("@ + dbg_expr(x) + ")"@,
    }
}

#[verifier::spinoff_prover]
#[verifier::rlimit(100)]
fn write_dbg_object_item(a: &ObjectItem, out: &mut Vec<char>)
    ensures final(out)@ == old(out)@ + dbg_object_item(*a),
    decreases a, 1nat,
{
    let ghost start = out@;
    match a {
        ObjectItem::Shorthand(k) => {
            push_str(out, "Shorthand(");
            { let q = debug_str(k.as_str()); push_str(out, q.as_str()); }
            push_str(out, ")");
        },
        ObjectItem::Prop(k, x) => {
            push_str(out, "Prop(");
            { let q = debug_str(k.as_str()); push_str(out, q.as_str()); }
            push_str(out, ", ");
            write_dbg_expr(x, out);
            push_str(out, ")");
        },
        ObjectItem::Spread(x) => {
            push_str(out, "Spread(");
            write_dbg_expr(x, out);
            push_str(out, ")");
        },
    }
    assert(out@ =~= start + dbg_object_item(*a));
}

/// The `Debug` text of a `Element`.
pub open spec fn dbg_element(el: Element) -> Seq<char>
    decreases el, 1nat,
{
    "Element { tag: "@ + debug_quoted(el.tag@) + ", is_component: "@
        + (if el.is_component { "true"@ } else { "false"@ }) + ", props: "@ + dbg_props(el.props@)
        + ", children: "@ + dbg_exprs(el.children@) + " }"@
}

fn write_dbg_element(el: &Element, out: &mut Vec<char>)
    ensures final(out)@ == old(out)@ + dbg_element(*el),
    decreases el, 1nat,
{
    let ghost start = out@;
    push_str(out, "Element { tag: ");
    { let q = debug_str(&el.tag.as_str()); push_str(out, q.as_str()); }
    push_str(out, ", is_component: ");
    if *&el.is_component { push_str(out, "true"); } else { push_str(out, "false"); }
    push_str(out, ", props: ");
    write_dbg_props(&el.props, out);
    push_str(out, ", children: ");
    write_dbg_exprs(&el.children, out);
    push_str(out, " }");
    assert(out@ =~= start + dbg_element(*el));
}

/// The `Debug` text of a `Prop`.
pub open spec fn dbg_prop(pr: Prop) -> Seq<char>
    decreases pr, 1nat,
{
    "Prop { name: "@ + debug_quoted(pr.name@) + ", value: "@ + dbg_opt_expr(pr.value) + " }"@
}

fn write_dbg_prop(pr: &Prop, out: &mut Vec<char>)
    ensures final(out)@ == old(out)@ + dbg_prop(*pr),
    decreases pr, 1nat,
{
    let ghost start = out@;
    push_str(out, "Prop { name: ");
    { let q = debug_str(&pr.name.as_str()); push_str(out, q.as_str()); }
    push_str(out, ", value: ");
    write_dbg_opt_expr(&pr.value, out);
    push_str(out, " }");
    assert(out@ =~= start + dbg_prop(*pr));
}

/// The `Debug` text of a `Param`.
pub open spec fn dbg_param(pa: Param) -> Seq<char>
    decreases pa, 1nat,
{
    "Param { pattern: "@ + dbg_pattern(pa.pattern) + ", default: "@ + dbg_opt_expr(pa.default) + ", rest: "@
        + (if pa.rest { "true"@ } else { "false"@ }) + " }"@
}

fn write_dbg_param(pa: &Param, out: &mut Vec<char>)
    ensures final(out)@ == old(out)@ + dbg_param(*pa),
    decreases pa, 1nat,
{
    let ghost start = out@;
    push_str(out, "Param { pattern: ");
    write_dbg_pattern(&pa.pattern, out);
    push_str(out, ", default: ");
    write_dbg_opt_expr(&pa.default, out);
    push_str(out, ", rest: ");
    if *&pa.rest { push_str(out, "true"); } else { push_str(out, "false"); }
    push_str(out, " }");
    assert(out@ =~= start + dbg_param(*pa));
}

/// The `Debug` text of a `ObjectProp`.
pub open spec fn dbg_object_prop(op: ObjectProp) -> Seq<char>
    decreases op, 1nat,
{
    "ObjectProp { key: "@ + debug_quoted(op.key@) + ", alias: "@ + dbg_opt_pattern(op.alias) + " }"@
}

fn write_dbg_object_prop(op: &ObjectProp, out: &mut Vec<char>)
    ensures final(out)@ == old(out)@ + dbg_object_prop(*op),
    decreases op, 1nat,
{
    let ghost start = out@;
    push_str(out, "ObjectProp { key: ");
    { let q = debug_str(&op.key.as_str()); push_str(out, q.as_str()); }
    push_str(out, ", alias: ");
    write_dbg_opt_pattern(&op.alias, out);
    push_str(out, " }");
    assert(out@ =~= start + dbg_object_prop(*op));
}

/// The `Debug` text of an optional pattern.
pub open spec fn dbg_opt_pattern(p: Option<Pattern>) -> Seq<char>
    decreases p, 1nat,
{
    match p {
        Some(x) => "Some("@ + dbg_pattern(x) + ")"@,
        None => "None"@,
    }
}

fn write_dbg_opt_pattern(p: &Option<Pattern>, out: &mut Vec<char>)
    ensures final(out)@ == old(out)@ + dbg_opt_pattern(*p),
    decreases p, 1nat,
{
    let ghost start = out@;
    match p {
        Some(x) => {
            push_str(out, "Some(");
            write_dbg_pattern(x, out);
            push_str(out, ")");
        },
        None => push_str(out, "None"),
    }
    assert(out@ =~= start + dbg_opt_pattern(*p));
}

/// The `Debug` text of a `switch` case: its label and body as a pair.
pub open spec fn dbg_case(c: (Option<Expr>, Vec<Stmt>)) -> Seq<char>
    decreases c, 1nat,
{
    "("@ + (match c.0 {
        Some(x) => "Some("@ + dbg_expr(x) + ")"@,
        None => "None"@,
    }) + ", "@ + dbg_stmts(c.1@) + ")"@
}

fn write_dbg_case(c: &(Option<Expr>, Vec<Stmt>), out: &mut Vec<char>)
    ensures final(out)@ == old(out)@ + dbg_case(*c),
    decreases c, 1nat,
{
    let ghost start = out@;
    push_str(out, "(");
    match &c.0 {
        Some(x) => {
            push_str(out, "Some(");
            write_dbg_expr(x, out);
            push_str(out, ")");
        },
        None => push_str(out, "None"),
    }
    push_str(out, ", ");
    write_dbg_stmts(&c.1, out);
    push_str(out, ")");
    assert(out@ =~= start + dbg_case(*c));
}

/// The `Debug` text of an optional value: `Some(..)` around its text, or `None`.
pub open spec fn dbg_opt_box_expr(o: Option<Box<Expr>>) -> Seq<char>
    decreases o, 1nat,
{
    match o {
        Some(x) => "Some("@ + dbg_expr(*x) + ")"@,
        None => "None"@,
    }
}

fn write_dbg_opt_box_expr(o: &Option<Box<Expr>>, out: &mut Vec<char>)
    ensures final(out)@ == old(out)@ + dbg_opt_box_expr(*o),
    decreases o, 1nat,
{
    let ghost start = out@;
    match o {
        Some(x) => {
            push_str(out, "Some(");
            write_dbg_expr(&**x, out);
            push_str(out, ")");
        },
        None => push_str(out, "None"),
    }
    assert(out@ =~= start + dbg_opt_box_expr(*o));
}

/// The `Debug` text of an optional value: `Some(..)` around its text, or `None`.
pub open spec fn dbg_opt_expr(o: Option<Expr>) -> Seq<char>
    decreases o, 1nat,
{
    match o {
        Some(x) => "Some("@ + dbg_expr(x) + ")"@,
        None => "None"@,
    }
}

fn write_dbg_opt_expr(o: &Option<Expr>, out: &mut Vec<char>)
    ensures final(out)@ == old(out)@ + dbg_opt_expr(*o),
    decreases o, 1nat,
{
    let ghost start = out@;
    match o {
        Some(x) => {
            push_str(out, "Some(");
            write_dbg_expr(x, out);
            push_str(out, ")");
        },
        None => push_str(out, "None"),
    }
    assert(out@ =~= start + dbg_opt_expr(*o));
}

/// The `Debug` text of an optional value: `Some(..)` around its text, or `None`.
pub open spec fn dbg_opt_exprs(o: Option<Vec<Expr>>) -> Seq<char>
    decreases o, 1nat,
{
    match o {
        Some(x) => "Some("@ + dbg_exprs(x@) + ")"@,
        None => "None"@,
    }
}

fn write_dbg_opt_exprs(o: &Option<Vec<Expr>>, out: &mut Vec<char>)
    ensures final(out)@ == old(out)@ + dbg_opt_exprs(*o),
    decreases o, 1nat,
{
    let ghost start = out@;
    match o {
        Some(x) => {
            push_str(out, "Some(");
            write_dbg_exprs(x, out);
            push_str(out, ")");
        },
        None => push_str(out, "None"),
    }
    assert(out@ =~= start + dbg_opt_exprs(*o));
}

/// The `Debug` text of an optional value: `Some(..)` around its text, or `None`.
pub open spec fn dbg_opt_str(o: Option<String>) -> Seq<char>
    decreases o, 1nat,
{
    match o {
        Some(x) => "Some("@ + debug_quoted(x@) + ")"@,
        None => "None"@,
    }
}

fn write_dbg_opt_str(o: &Option<String>, out: &mut Vec<char>)
    ensures final(out)@ == old(out)@ + dbg_opt_str(*o),
    decreases o, 1nat,
{
    let ghost start = out@;
    match o {
        Some(x) => {
            push_str(out, "Some(");
            { let q = debug_str(x.as_str()); push_str(out, q.as_str()); }
            push_str(out, ")");
        },
        None => push_str(out, "None"),
    }
    assert(out@ =~= start + dbg_opt_str(*o));
}

/// The `Debug` text of an optional value: `Some(..)` around its text, or `None`.
pub open spec fn dbg_opt_stmts(o: Option<Vec<Stmt>>) -> Seq<char>
    decreases o, 1nat,
{
    match o {
        Some(x) => "Some("@ + dbg_stmts(x@) + ")"@,
        None => "None"@,
    }
}

fn write_dbg_opt_stmts(o: &Option<Vec<Stmt>>, out: &mut Vec<char>)
    ensures final(out)@ == old(out)@ + dbg_opt_stmts(*o),
    decreases o, 1nat,
{
    let ghost start = out@;
    match o {
        Some(x) => {
            push_str(out, "Some(");
            write_dbg_stmts(x, out);
            push_str(out, ")");
        },
        None => push_str(out, "None"),
    }
    assert(out@ =~= start + dbg_opt_stmts(*o));
}

/// The `Debug` text of an optional value: `Some(..)` around its text, or `None`.
pub open spec fn dbg_opt_box_stmt(o: Option<Box<Stmt>>) -> Seq<char>
    decreases o, 1nat,
{
    match o {
        Some(x) => "Some("@ + dbg_stmt(*x) + ")"@,
        None => "None"@,
    }
}

fn write_dbg_opt_box_stmt(o: &Option<Box<Stmt>>, out: &mut Vec<char>)
    ensures final(out)@ == old(out)@ + dbg_opt_box_stmt(*o),
    decreases o, 1nat,
{
    let ghost start = out@;
    match o {
        Some(x) => {
            push_str(out, "Some(");
            write_dbg_stmt(&**x, out);
            push_str(out, ")");
        },
        None => push_str(out, "None"),
    }
    assert(out@ =~= start + dbg_opt_box_stmt(*o));
}

} // verus!
