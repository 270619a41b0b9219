//! The one-line text of literals, patterns, parameter lists and expressions,
//! as used in diagnostics.

use vstd::prelude::*;
use crate::ast::expr::{ArrayItem, CallArg, Expr, ObjectItem, UpdateOp};
use crate::ast::debug::{dbg_exprs, write_dbg_exprs};
use crate::ast::lit::Literal;
use crate::ast::op::{binop_text, unop_text};
use crate::ast::program::{ObjectProp, Param, Pattern};
use crate::text::{append_chars, decimal, decimal_chars, push_str, signed_decimal, signed_decimal_chars, string_from_chars};

verus! {

/// The quoted, escaped text of a string (std's `Debug` for `str`).
pub uninterp spec fn debug_quoted(s: Seq<char>) -> Seq<char>;

/// std's `{:?}` formatting of a string: the text in double quotes, with
/// quotes, backslashes and non-printable characters escaped. Its result is
/// named, not described.
#[verifier::external_body]
pub(crate) fn debug_str(s: &str) -> (r: String)
    ensures r@ == debug_quoted(s@),
{
    format!("{:?}", s)
}

/// The text of a literal: a decimal integer, the fraction's source text, the
/// quoted string, `true`/`false`, `null` or `undefined`.
pub open spec fn literal_text(l: Literal) -> Seq<char> {
    match l {
        Literal::Int(i) => signed_decimal(i as int),
        Literal::Float(t) => t@,
        Literal::String(s) => debug_quoted(s@),
        Literal::Bool(b) => if b { "true"@ } else { "false"@ },
        Literal::Null => "null"@,
        Literal::Undefined => "undefined"@,
    }
}

/// `...name` after `nonempty` items (with a separating comma), if there is
/// a rest binding.
pub open spec fn rest_text(rest: Option<String>, nonempty: bool) -> Seq<char> {
    match rest {
        Some(r) => (if nonempty { ", "@ } else { Seq::empty() }) + "..."@ + r@,
        None => Seq::empty(),
    }
}

/// The spelling of an update operator.
pub open spec fn update_text(op: UpdateOp) -> Seq<char> {
    match op {
        UpdateOp::Inc => "++"@,
        UpdateOp::Dec => "--"@,
    }
}

/// The one-line text of an expression.
pub open spec fn expr_text(e: Expr) -> Seq<char>
    decreases e, 0nat,
{
    match e {
        Expr::Literal(l) => literal_text(l),
        Expr::Ident { name, .. } => name@,
        Expr::Member { base, prop } => expr_text(*base) + "."@ + prop@,
        Expr::Binary { op, left, right } =>
            "("@ + expr_text(*left) + " "@ + binop_text(op) + " "@ + expr_text(*right) + ")"@,
        Expr::Unary { op, expr } => "("@ + unop_text(op) + expr_text(*expr) + ")"@,
        Expr::New { callee, args } => "new "@ + expr_text(*callee) + "("@ + args_text(args@) + ")"@,
        Expr::Call { callee, args } => expr_text(*callee) + "("@ + args_text(args@) + ")"@,
        Expr::Element(el) => "<"@ + el.tag@ + "/"@ + decimal(el.props@.len()) + ">"@,
        Expr::Ternary { cond, then, else_ } =>
            "("@ + expr_text(*cond) + " ? "@ + expr_text(*then) + " : "@ + expr_text(*else_) + ")"@,
        Expr::Assign { target, value } => "("@ + expr_text(*target) + " = "@ + expr_text(*value) + ")"@,
        Expr::Array(items) => "["@ + array_items_text(items@) + "]"@,
        Expr::Object(items) => "{"@ + object_items_text(items@) + "}"@,
        Expr::Template { parts, exprs } => "`"@ + template_text(parts@, exprs@, parts@.len()) + "`"@,
        Expr::Update { op, target, prefix } => if prefix {
            "("@ + update_text(op) + expr_text(*target) + ")"@
        } else {
            "("@ + expr_text(*target) + update_text(op) + ")"@
        },
        Expr::CompoundAssign { op, target, value } =>
            "("@ + expr_text(*target) + " "@ + binop_text(op) + " "@ + expr_text(*value) + ")"@,
        Expr::Arrow { params, body, async_ } =>
            (if async_ { "async ("@ } else { "("@ }) + params_text(params@) + ") => "@ + expr_text(*body),
        Expr::Function { name, params, body } => "function "@ + (match name {
            Some(n) => n@,
            None => Seq::empty(),
        }) + "("@ + params_text(params@) + ") { "@ + decimal(body@.len()) + " stmts }"@,
        Expr::Await { value, .. } => "await "@ + expr_text(*value),
        Expr::Yield { value, .. } => match value {
            Some(v) => "yield "@ + expr_text(*v),
            None => "yield"@,
        },
        Expr::Block(stmts) => "{"@ + block_text(stmts@) + "}"@,
        Expr::Throw(v) => "throw "@ + expr_text(*v),
        Expr::Return(v) => match v {
            Some(x) => "return "@ + expr_text(*x),
            None => "return"@,
        },
        Expr::While { cond, body } => "(while "@ + expr_text(*cond) + " "@ + expr_text(*body) + ")"@,
        Expr::Break => "break"@,
        Expr::Continue => "continue"@,
        Expr::Try { block, catch_param, catch, finally } =>
            "try { "@ + dbg_exprs(block@) + " } "@ + (match catch_param {
                Some(p) => "catch ("@ + p@ + ") { "@ + (match catch {
                    Some(c) => "Some("@ + dbg_exprs(c@) + ")"@,
                    None => "None"@,
                }) + " } "@,
                None => match catch {
                    Some(c) => "catch { "@ + dbg_exprs(c@) + " } "@,
                    None => Seq::empty(),
                },
            }) + (match finally {
                Some(f) => "finally { "@ + dbg_exprs(f@) + " }"@,
                None => Seq::empty(),
            }),
        Expr::DynImport { specifier } => "import("@ + debug_quoted(specifier@) + ")"@,
    }
}

/// Call arguments, `, `-separated (`...` before a spread).
pub open spec fn args_text(s: Seq<CallArg>) -> Seq<char>
    decreases s, 0nat,
{
    if s.len() == 0 {
        Seq::empty()
    } else {
        (if s.len() == 1 { Seq::empty() } else { args_text(s.drop_last()) + ", "@ }) + match s.last() {
            CallArg::Expr(x) => expr_text(x),
            CallArg::Spread(x) => "..."@ + expr_text(x),
        }
    }
}

/// Array items, `, `-separated (`...` before a spread).
pub open spec fn array_items_text(s: Seq<ArrayItem>) -> Seq<char>
    decreases s, 0nat,
{
    if s.len() == 0 {
        Seq::empty()
    } else {
        (if s.len() == 1 { Seq::empty() } else { array_items_text(s.drop_last()) + ", "@ }) + match s.last() {
            ArrayItem::Expr(x) => expr_text(x),
            ArrayItem::Spread(x) => "..."@ + expr_text(x),
        }
    }
}

/// Object items, `, `-separated: `name`, `key: value` or `...spread`.
pub open spec fn object_items_text(s: Seq<ObjectItem>) -> Seq<char>
    decreases s, 0nat,
{
    if s.len() == 0 {
        Seq::empty()
    } else {
        (if s.len() == 1 { Seq::empty() } else { object_items_text(s.drop_last()) + ", "@ }) + match s.last() {
            ObjectItem::Shorthand(n) => n@,
            ObjectItem::Prop(k, v) => k@ + ": "@ + expr_text(v),
            ObjectItem::Spread(x) => "..."@ + expr_text(x),
        }
    }
}

/// Block statements, each followed by `; `.
pub open spec fn block_text(s: Seq<Expr>) -> Seq<char>
    decreases s, 0nat,
{
    if s.len() == 0 { Seq::empty() } else { block_text(s.drop_last()) + expr_text(s.last()) + "; "@ }
}

/// The first `k` template parts, each followed by `${expr}` when an
/// interpolation of that position exists.
pub open spec fn template_text(parts: Seq<String>, exprs: Seq<Expr>, k: nat) -> Seq<char>
    decreases exprs, k,
{
    if k == 0 || k > parts.len() {
        Seq::empty()
    } else {
        template_text(parts, exprs, (k - 1) as nat) + parts[k - 1]@ + if k - 1 < exprs.len() {
            "${"@ + expr_text(exprs[k - 1]) + "}"@
        } else {
            Seq::empty()
        }
    }
}

/// The text of a binding pattern.
pub open spec fn pattern_text(p: Pattern) -> Seq<char>
    decreases p, 0nat,
{
    match p {
        Pattern::Name { name, default } => name@ + match default {
            Some(d) => " = "@ + expr_text(d),
            None => Seq::empty(),
        },
        Pattern::Object { props, rest } => "{"@ + object_props_text(props@) + rest_text(rest, props@.len() > 0) + "}"@,
        Pattern::Array { items, rest } => "["@ + pattern_items_text(items@) + rest_text(rest, items@.len() > 0) + "]"@,
    }
}

/// Object-pattern properties, `, `-separated: `key` or `key: pattern`.
pub open spec fn object_props_text(s: Seq<ObjectProp>) -> Seq<char>
    decreases s, 0nat,
{
    if s.len() == 0 {
        Seq::empty()
    } else {
        (if s.len() == 1 { Seq::empty() } else { object_props_text(s.drop_last()) + ", "@ }) + s.last().key@
            + match s.last().alias {
            Some(a) => ": "@ + pattern_text(a),
            None => Seq::empty(),
        }
    }
}

/// Array-pattern elements, `, `-separated (a hole is empty).
pub open spec fn pattern_items_text(s: Seq<Option<Pattern>>) -> Seq<char>
    decreases s, 0nat,
{
    if s.len() == 0 {
        Seq::empty()
    } else {
        (if s.len() == 1 { Seq::empty() } else { pattern_items_text(s.drop_last()) + ", "@ }) + match s.last() {
            Some(p) => pattern_text(p),
            None => Seq::empty(),
        }
    }
}

/// A parameter list, `, `-separated: `...` before a rest parameter, then the
/// pattern, then ` = default` when it has one.
pub open spec fn params_text(s: Seq<Param>) -> Seq<char>
    decreases s, 0nat,
{
    if s.len() == 0 {
        Seq::empty()
    } else {
        (if s.len() == 1 { Seq::empty() } else { params_text(s.drop_last()) + ", "@ })
            + (if s.last().rest { "..."@ } else { Seq::empty() }) + pattern_text(s.last().pattern)
            + match s.last().default {
            Some(d) => " = "@ + expr_text(d),
            None => Seq::empty(),
        }
    }
}

fn write_literal(l: &Literal, out: &mut Vec<char>)
    ensures final(out)@ == old(out)@ + literal_text(*l),
{
    match l {
        Literal::Int(i) => {
            let d = signed_decimal_chars(*i);
            append_chars(out, &d);
        },
        Literal::Float(t) => push_str(out, t.as_str()),
        Literal::String(s) => {
            let q = debug_str(s.as_str());
            push_str(out, q.as_str());
        },
        Literal::Bool(b) => {
            if *b {
                push_str(out, "true");
            } else {
                push_str(out, "false");
            }
        },
        Literal::Null => push_str(out, "null"),
        Literal::Undefined => push_str(out, "undefined"),
    }
}

fn write_rest(rest: &Option<String>, nonempty: bool, out: &mut Vec<char>)
    ensures final(out)@ == old(out)@ + rest_text(*rest, nonempty),
{
    let ghost start = out@;
    match rest {
        Some(r) => {
            if nonempty {
                push_str(out, ", ");
            }
            push_str(out, "...");
            push_str(out, r.as_str());
            assert(out@ =~= start + rest_text(*rest, nonempty));
        },
        None => {
            assert(out@ =~= start + rest_text(*rest, nonempty));
        },
    }
}

#[verifier::spinoff_prover]
#[verifier::rlimit(100)]
fn write_pattern(p: &Pattern, out: &mut Vec<char>)
    ensures final(out)@ == old(out)@ + pattern_text(*p),
    decreases p, 1nat,
{
    let ghost start = out@;
    match p {
        Pattern::Name { name, default } => {
            push_str(out, name.as_str());
            match default {
                Some(d) => {
                    push_str(out, " = ");
                    write_expr(d, out);
                },
                None => {},
            }
            assert(out@ =~= start + pattern_text(*p));
        },
        Pattern::Object { props, rest } => {
            push_str(out, "{");
            let n = props.len();
            assert(object_props_text(props@.take(0)) =~= Seq::<char>::empty());
            assert(out@ =~= start + "{"@ + object_props_text(props@.take(0)));
            for i in 0..n
                invariant
                    n == props@.len(),
                    *p == (Pattern::Object { props: *props, rest: *rest }),
                    out@ == start + "{"@ + object_props_text(props@.take(i as int)),
            {
                let ghost next = props@.take(i + 1);
                assert(next.drop_last() =~= props@.take(i as int));
                assert(next.last() == props@[i as int]);
                if i > 0 {
                    push_str(out, ", ");
                }
                let pr = &props[i];
                push_str(out, pr.key.as_str());
                match &pr.alias {
                    Some(a) => {
                        push_str(out, ": ");
                        assert(decreases_to!(*p => p->props));
                        assert(decreases_to!(*props => props@));
                        assert(decreases_to!(props@ => props@[i as int]));
                        assert(decreases_to!(props@[i as int] => props@[i as int].alias));
                        write_pattern(a, out);
                    },
                    None => {},
                }
                assert(out@ =~= start + "{"@ + object_props_text(next));
            }
            assert(props@.take(n as int) =~= props@);
            write_rest(rest, n > 0, out);
            push_str(out, "}");
            assert(out@ =~= start + pattern_text(*p));
        },
        Pattern::Array { items, rest } => {
            push_str(out, "[");
            let n = items.len();
            assert(pattern_items_text(items@.take(0)) =~= Seq::<char>::empty());
            assert(out@ =~= start + "["@ + pattern_items_text(items@.take(0)));
            for i in 0..n
                invariant
                    n == items@.len(),
                    *p == (Pattern::Array { items: *items, rest: *rest }),
                    out@ == start + "["@ + pattern_items_text(items@.take(i as int)),
            {
                let ghost next = items@.take(i + 1);
                assert(next.drop_last() =~= items@.take(i as int));
                assert(next.last() == items@[i as int]);
                if i > 0 {
                    push_str(out, ", ");
                }
                match &items[i] {
                    Some(q) => {
                        assert(decreases_to!(*p => p->items));
                        assert(decreases_to!(*items => items@));
                        assert(decreases_to!(items@ => items@[i as int]));
                        write_pattern(q, out);
                    },
                    None => {},
                }
                assert(out@ =~= start + "["@ + pattern_items_text(next));
            }
            assert(items@.take(n as int) =~= items@);
            write_rest(rest, n > 0, out);
            push_str(out, "]");
            assert(out@ =~= start + pattern_text(*p));
        },
    }
}

#[verifier::spinoff_prover]
#[verifier::rlimit(100)]
fn write_params(params: &[Param], out: &mut Vec<char>)
    ensures final(out)@ == old(out)@ + params_text(params@),
    decreases params@, 1nat,
{
    let ghost start = out@;
    let n = params.len();
    assert(params_text(params@.take(0)) =~= Seq::<char>::empty());
    assert(out@ =~= start + params_text(params@.take(0)));
    for i in 0..n
        invariant
            n == params@.len(),
            out@ == start + params_text(params@.take(i as int)),
    {
        let ghost next = params@.take(i + 1);
        assert(next.drop_last() =~= params@.take(i as int));
        assert(next.last() == params@[i as int]);
        if i > 0 {
            push_str(out, ", ");
        }
        let pr = &params[i];
        if pr.rest {
            push_str(out, "...");
        }
        assert(decreases_to!(params@ => params@[i as int]));
        write_pattern(&pr.pattern, out);
        match &pr.default {
            Some(d) => {
                push_str(out, " = ");
                write_expr(d, out);
            },
            None => {},
        }
        assert(out@ =~= start + params_text(next));
    }
    assert(params@.take(n as int) =~= params@);
}

/// The arguments of the call (or `new`) expression `e`.
#[verifier::spinoff_prover]
#[verifier::rlimit(100)]
fn write_args(e: &Expr, args: &Vec<CallArg>, out: &mut Vec<char>)
    requires
        (*e matches Expr::Call { args: a, .. } && a == *args)
            || (*e matches Expr::New { args: a, .. } && a == *args),
    ensures final(out)@ == old(out)@ + args_text(args@),
    decreases e, 0nat,
{
    let ghost start = out@;
    let n = args.len();
    assert(args_text(args@.take(0)) =~= Seq::<char>::empty());
    assert(out@ =~= start + args_text(args@.take(0)));
    for i in 0..n
        invariant
            n == args@.len(),
            (*e matches Expr::Call { args: a, .. } && a == *args)
                || (*e matches Expr::New { args: a, .. } && a == *args),
            out@ == start + args_text(args@.take(i as int)),
    {
        let ghost next = args@.take(i + 1);
        assert(next.drop_last() =~= args@.take(i as int));
        assert(next.last() == args@[i as int]);
        if i > 0 {
            push_str(out, ", ");
        }
        assert(decreases_to!(*args => args@));
        assert(decreases_to!(args@ => args@[i as int]));
        match &args[i] {
            CallArg::Expr(x) => write_expr(x, out),
            CallArg::Spread(x) => {
                push_str(out, "...");
                write_expr(x, out);
            },
        }
        assert(out@ =~= start + args_text(next));
    }
    assert(args@.take(n as int) =~= args@);
}

/// An array literal.
#[verifier::spinoff_prover]
#[verifier::rlimit(100)]
fn write_array(e: &Expr, out: &mut Vec<char>)
    requires *e is Array,
    ensures final(out)@ == old(out)@ + expr_text(*e),
    decreases e, 0nat,
{
    let ghost start = out@;
    if let Expr::Array(items) = e {
        push_str(out, "[");
        let n = items.len();
        assert(array_items_text(items@.take(0)) =~= Seq::<char>::empty());
        assert(out@ =~= start + "["@ + array_items_text(items@.take(0)));
        for i in 0..n
            invariant
                n == items@.len(),
                *e == Expr::Array(*items),
                out@ == start + "["@ + array_items_text(items@.take(i as int)),
        {
            let ghost next = items@.take(i + 1);
            assert(next.drop_last() =~= items@.take(i as int));
            assert(next.last() == items@[i as int]);
            if i > 0 {
                push_str(out, ", ");
            }
            assert(decreases_to!(*e => e->Array_0));
            assert(decreases_to!(*items => items@));
            assert(decreases_to!(items@ => items@[i as int]));
            match &items[i] {
                ArrayItem::Expr(x) => write_expr(x, out),
                ArrayItem::Spread(x) => {
                    push_str(out, "...");
                    write_expr(x, out);
                },
            }
            assert(out@ =~= start + "["@ + array_items_text(next));
        }
        assert(items@.take(n as int) =~= items@);
        push_str(out, "]");
        assert(out@ =~= start + expr_text(*e));
    }
}

/// An object literal.
#[verifier::spinoff_prover]
#[verifier::rlimit(100)]
fn write_object(e: &Expr, out: &mut Vec<char>)
    requires *e is Object,
    ensures final(out)@ == old(out)@ + expr_text(*e),
    decreases e, 0nat,
{
    let ghost start = out@;
    if let Expr::Object(items) = e {
        push_str(out, "{");
        let n = items.len();
        assert(object_items_text(items@.take(0)) =~= Seq::<char>::empty());
        assert(out@ =~= start + "{"@ + object_items_text(items@.take(0)));
        for i in 0..n
            invariant
                n == items@.len(),
                *e == Expr::Object(*items),
                out@ == start + "{"@ + object_items_text(items@.take(i as int)),
        {
            let ghost next = items@.take(i + 1);
            assert(next.drop_last() =~= items@.take(i as int));
            assert(next.last() == items@[i as int]);
            if i > 0 {
                push_str(out, ", ");
            }
            assert(decreases_to!(*e => e->Object_0));
            assert(decreases_to!(*items => items@));
            assert(decreases_to!(items@ => items@[i as int]));
            match &items[i] {
                ObjectItem::Shorthand(n) => push_str(out, n.as_str()),
                ObjectItem::Prop(k, v) => {
                    push_str(out, k.as_str());
                    push_str(out, ": ");
                    write_expr(v, out);
                },
                ObjectItem::Spread(x) => {
                    push_str(out, "...");
                    write_expr(x, out);
                },
            }
            assert(out@ =~= start + "{"@ + object_items_text(next));
        }
        assert(items@.take(n as int) =~= items@);
        push_str(out, "}");
        assert(out@ =~= start + expr_text(*e));
    }
}

/// A template literal.
#[verifier::spinoff_prover]
#[verifier::rlimit(100)]
fn write_template(e: &Expr, out: &mut Vec<char>)
    requires *e is Template,
    ensures final(out)@ == old(out)@ + expr_text(*e),
    decreases e, 0nat,
{
    let ghost start = out@;
    if let Expr::Template { parts, exprs } = e {
        push_str(out, "`");
        let n = parts.len();
        assert(out@ =~= start + "`"@ + template_text(parts@, exprs@, 0));
        for i in 0..n
            invariant
                n == parts@.len(),
                *e == (Expr::Template { parts: *parts, exprs: *exprs }),
                out@ == start + "`"@ + template_text(parts@, exprs@, i as nat),
        {
            let ghost before = out@;
            push_str(out, parts[i].as_str());
            if i < exprs.len() {
                push_str(out, "${");
                assert(decreases_to!(*e => e->Template_exprs));
                assert(decreases_to!(*exprs => exprs@));
                assert(decreases_to!(exprs@ => exprs@[i as int]));
                write_expr(&exprs[i], out);
                push_str(out, "}");
                assert(out@ =~= before + (parts@[i as int]@ + ("${"@ + expr_text(exprs@[i as int]) + "}"@)));
            } else {
                assert(out@ =~= before + (parts@[i as int]@ + Seq::<char>::empty()));
            }
            assert(template_text(parts@, exprs@, (i + 1) as nat) == template_text(parts@, exprs@, i as nat)
                + parts@[i as int]@ + (if i < exprs@.len() { "${"@ + expr_text(exprs@[i as int]) + "}"@ } else { Seq::<char>::empty() }));
            assert(out@ =~= start + "`"@ + template_text(parts@, exprs@, (i + 1) as nat));
        }
        push_str(out, "`");
        assert(out@ =~= start + expr_text(*e));
    }
}

/// A block of expressions.
#[verifier::spinoff_prover]
#[verifier::rlimit(100)]
fn write_block(e: &Expr, out: &mut Vec<char>)
    requires *e is Block,
    ensures final(out)@ == old(out)@ + expr_text(*e),
    decreases e, 0nat,
{
    let ghost start = out@;
    if let Expr::Block(stmts) = e {
        push_str(out, "{");
        let n = stmts.len();
        assert(block_text(stmts@.take(0)) =~= Seq::<char>::empty());
        assert(out@ =~= start + "{"@ + block_text(stmts@.take(0)));
        for i in 0..n
            invariant
                n == stmts@.len(),
                *e == Expr::Block(*stmts),
                out@ == start + "{"@ + block_text(stmts@.take(i as int)),
        {
            let ghost next = stmts@.take(i + 1);
            assert(next.drop_last() =~= stmts@.take(i as int));
            assert(next.last() == stmts@[i as int]);
            assert(decreases_to!(*e => e->Block_0));
            assert(decreases_to!(*stmts => stmts@));
            assert(decreases_to!(stmts@ => stmts@[i as int]));
            write_expr(&stmts[i], out);
            push_str(out, "; ");
            assert(out@ =~= start + "{"@ + block_text(next));
        }
        assert(stmts@.take(n as int) =~= stmts@);
        push_str(out, "}");
        assert(out@ =~= start + expr_text(*e));
    }
}

/// A `try` expression, its blocks shown by their derived `Debug` text.
#[verifier::spinoff_prover]
#[verifier::rlimit(100)]
fn write_try(e: &Expr, out: &mut Vec<char>)
    requires *e is Try,
    ensures final(out)@ == old(out)@ + expr_text(*e),
{
    let ghost start = out@;
    if let Expr::Try { block, catch_param, catch, finally } = e {
        push_str(out, "try { ");
        write_dbg_exprs(block, out);
        push_str(out, " } ");
        let ghost mid = out@;
        match catch_param {
            Some(p) => {
                push_str(out, "catch (");
                push_str(out, p.as_str());
                push_str(out, ") { ");
                match catch {
                    Some(c) => {
                        push_str(out, "Some(");
                        write_dbg_exprs(c, out);
                        push_str(out, ")");
                    },
                    None => push_str(out, "None"),
                }
                push_str(out, " } ");
            },
            None => match catch {
                Some(c) => {
                    push_str(out, "catch { ");
                    write_dbg_exprs(c, out);
                    push_str(out, " } ");
                },
                None => {},
            },
        }
        let ghost mid2 = out@;
        match finally {
            Some(f) => {
                push_str(out, "finally { ");
                write_dbg_exprs(f, out);
                push_str(out, " }");
            },
            None => {},
        }
        assert(out@ =~= start + expr_text(*e));
    }
}

/// A function expression: its name, parameters and statement count.
#[verifier::spinoff_prover]
#[verifier::rlimit(100)]
fn write_function(e: &Expr, out: &mut Vec<char>)
    requires *e is Function,
    ensures final(out)@ == old(out)@ + expr_text(*e),
    decreases e, 0nat,
{
    let ghost start = out@;
    if let Expr::Function { name, params, body } = e {
        push_str(out, "function ");
        match name {
            Some(n) => push_str(out, n.as_str()),
            None => {},
        }
        push_str(out, "(");
        assert(decreases_to!(*e => e->Function_params));
        assert(decreases_to!(*params => params@));
        write_params(params.as_slice(), out);
        push_str(out, ") { ");
        let d = decimal_chars(body.len());
        append_chars(out, &d);
        push_str(out, " stmts }");
        assert(out@ =~= start + expr_text(*e));
    }
}

#[verifier::spinoff_prover]
#[verifier::rlimit(100)]
fn write_expr(e: &Expr, out: &mut Vec<char>)
    ensures final(out)@ == old(out)@ + expr_text(*e),
    decreases e, 1nat,
{
    let ghost start = out@;
    match e {
        Expr::Literal(l) => write_literal(l, out),
        Expr::Ident { name, .. } => push_str(out, name.as_str()),
        Expr::Member { base, prop } => {
            write_expr(base, out);
            push_str(out, ".");
            push_str(out, prop.as_str());
            assert(out@ =~= start + expr_text(*e));
        },
        Expr::Binary { op, left, right } => {
            push_str(out, "(");
            write_expr(left, out);
            push_str(out, " ");
            push_str(out, op.as_str());
            push_str(out, " ");
            write_expr(right, out);
            push_str(out, ")");
            assert(out@ =~= start + expr_text(*e));
        },
        Expr::Unary { op, expr } => {
            push_str(out, "(");
            push_str(out, op.as_str());
            write_expr(expr, out);
            push_str(out, ")");
            assert(out@ =~= start + expr_text(*e));
        },
        Expr::New { callee, args } => {
            push_str(out, "new ");
            write_expr(callee, out);
            push_str(out, "(");
            write_args(e, args, out);
            push_str(out, ")");
            assert(out@ =~= start + expr_text(*e));
        },
        Expr::Call { callee, args } => {
            write_expr(callee, out);
            push_str(out, "(");
            write_args(e, args, out);
            push_str(out, ")");
            assert(out@ =~= start + expr_text(*e));
        },
        Expr::Element(el) => {
            push_str(out, "<");
            push_str(out, el.tag.as_str());
            push_str(out, "/");
            let d = decimal_chars(el.props.len());
            append_chars(out, &d);
            push_str(out, ">");
            assert(out@ =~= start + expr_text(*e));
        },
        Expr::Ternary { cond, then, else_ } => {
            push_str(out, "(");
            write_expr(cond, out);
            push_str(out, " ? ");
            write_expr(then, out);
            push_str(out, " : ");
            write_expr(else_, out);
            push_str(out, ")");
            assert(out@ =~= start + expr_text(*e));
        },
        Expr::Assign { target, value } => {
            push_str(out, "(");
            write_expr(target, out);
            push_str(out, " = ");
            write_expr(value, out);
            push_str(out, ")");
            assert(out@ =~= start + expr_text(*e));
        },
        Expr::Array(_) => write_array(e, out),
        Expr::Object(_) => write_object(e, out),
        Expr::Template { .. } => write_template(e, out),
        Expr::Update { op, target, prefix } => {
            let s = match op {
                UpdateOp::Inc => "++",
                UpdateOp::Dec => "--",
            };
            push_str(out, "(");
            if *prefix {
                push_str(out, s);
                write_expr(target, out);
            } else {
                write_expr(target, out);
                push_str(out, s);
            }
            push_str(out, ")");
            assert(out@ =~= start + expr_text(*e));
        },
        Expr::CompoundAssign { op, target, value } => {
            push_str(out, "(");
            write_expr(target, out);
            push_str(out, " ");
            push_str(out, op.as_str());
            push_str(out, " ");
            write_expr(value, out);
            push_str(out, ")");
            assert(out@ =~= start + expr_text(*e));
        },
        Expr::Arrow { params, body, async_ } => {
            if *async_ {
                push_str(out, "async (");
            } else {
                push_str(out, "(");
            }
            assert(decreases_to!(*e => e->Arrow_params));
            assert(decreases_to!(*params => params@));
            write_params(params.as_slice(), out);
            push_str(out, ") => ");
            write_expr(body, out);
            assert(out@ =~= start + expr_text(*e));
        },
        Expr::Function { .. } => write_function(e, out),
        Expr::Await { value, .. } => {
            push_str(out, "await ");
            write_expr(value, out);
            assert(out@ =~= start + expr_text(*e));
        },
        Expr::Yield { value, .. } => {
            match value {
                Some(v) => {
                    push_str(out, "yield ");
                    write_expr(v, out);
                },
                None => push_str(out, "yield"),
            }
            assert(out@ =~= start + expr_text(*e));
        },
        Expr::Block(_) => write_block(e, out),
        Expr::Throw(v) => {
            push_str(out, "throw ");
            write_expr(v, out);
            assert(out@ =~= start + expr_text(*e));
        },
        Expr::Return(v) => {
            match v {
                Some(x) => {
                    push_str(out, "return ");
                    write_expr(x, out);
                },
                None => push_str(out, "return"),
            }
            assert(out@ =~= start + expr_text(*e));
        },
        Expr::While { cond, body } => {
            push_str(out, "(while ");
            write_expr(cond, out);
            push_str(out, " ");
            write_expr(body, out);
            push_str(out, ")");
            assert(out@ =~= start + expr_text(*e));
        },
        Expr::Break => push_str(out, "break"),
        Expr::Continue => push_str(out, "continue"),
        Expr::Try { .. } => write_try(e, out),
        Expr::DynImport { specifier } => {
            push_str(out, "import(");
            let q = debug_str(specifier.as_str());
            push_str(out, q.as_str());
            push_str(out, ")");
            assert(out@ =~= start + expr_text(*e));
        },
    }
}

impl Literal {
    /// The literal's text.
    pub fn to_string(&self) -> (r: String)
        ensures r@ == literal_text(*self),
    {
        let mut out: Vec<char> = Vec::new();
        write_literal(self, &mut out);
        string_from_chars(&out)
    }
}

impl Pattern {
    /// The pattern's text: `x = default`, `{a, b: c, ...rest}`, `[x, , y]`.
    pub fn to_string(&self) -> (r: String)
        ensures r@ == pattern_text(*self),
    {
        let mut out: Vec<char> = Vec::new();
        write_pattern(self, &mut out);
        string_from_chars(&out)
    }
}

impl Expr {
    /// The expression's one-line text.
    pub fn to_string(&self) -> (r: String)
        ensures r@ == expr_text(*self),
    {
        let mut out: Vec<char> = Vec::new();
        write_expr(self, &mut out);
        string_from_chars(&out)
    }
}

/// The text of a parameter list (`x`, `x = dflt`, `{a, b}`, `...rest`).
pub fn param_list_string(params: &[Param]) -> (r: String)
    ensures r@ == params_text(params@),
{
    let mut out: Vec<char> = Vec::new();
    write_params(params, &mut out);
    string_from_chars(&out)
}

} // verus!
