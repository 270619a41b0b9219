//! Lowering source expressions and statements to the JS IR.
//!
//! An expression lowers structurally: identifiers to variables (`undefined`
//! to its literal), members to reads, `base.get(k)` with one plain argument
//! to an index, templates to string concatenation, arrows and function
//! expressions to closures (an async arrow to an await-delimited state
//! machine), statements of a function body to their IR drivers. Destructuring
//! evaluates its value once into a fresh `$dstN` temporary, numbered by a
//! counter the caller threads through. `await`, `yield` and elements are
//! rejected as values, as are rest parameters and defaults on destructuring
//! parameters.

use vstd::prelude::*;
use crate::ast::expr::{ArrayItem, CallArg, Expr, ObjectItem, UpdateOp};
use crate::ast::lit::Literal;
use crate::ast::op::{binop_text, unop_text, BinOp};
use crate::ast::program::{ObjectProp, Param, Pattern, Stmt};
use crate::ir::js::{js_binop_text, js_unop_text, lower_binop, lower_unop, JsArrayItem, JsAsyncSegment, JsBinOp,
    JsExpr, JsObjectItem, SwitchCase};
use crate::ir::lower::LowerError;
use crate::ir::shape::{contains_await, suspends};
use crate::text::{decimal, decimal_chars_u64, owned, push_str, str_eq, string_from_chars};

verus! {

// ---------------------------------------------------------------------------
// When lowering succeeds.

/// `e` lowers: every part of it that is lowered lowers, and it uses no form
/// the lowerer rejects.
pub open spec fn lowerable(e: Expr) -> bool
    decreases e, 5nat,
{
    match e {
        Expr::Literal(_) => true,
        Expr::Ident { .. } => true,
        Expr::DynImport { .. } => true,
        Expr::Break => true,
        Expr::Continue => true,
        Expr::Member { base, .. } => lowerable(*base),
        Expr::Binary { left, right, .. } => lowerable(*left) && lowerable(*right),
        Expr::Unary { expr, .. } => lowerable(*expr),
        Expr::Call { callee, args } => lowerable(*callee) && lowerable_args(args@),
        Expr::New { callee, args } => lowerable(*callee) && lowerable_args(args@),
        Expr::Array(items) => lowerable_items(items@),
        Expr::Object(items) => lowerable_objects(items@),
        Expr::Template { parts, exprs } => lowerable_upto(exprs@, parts@.len() as int),
        Expr::Update { target, .. } => lowerable(*target),
        Expr::CompoundAssign { target, value, .. } => lowerable(*target) && lowerable(*value),
        Expr::Ternary { cond, then, else_ } => lowerable(*cond) && lowerable(*then) && lowerable(*else_),
        Expr::Arrow { params, body, async_ } => params_ok(params@) && (if async_ {
            binds_count(params@) == 0 && segments_ok(*body)
        } else {
            lowerable(*body)
        }),
        Expr::Function { params, body, .. } => params_ok(params@) && stmts_ok(body@),
        Expr::Await { .. } => false,
        Expr::Yield { .. } => false,
        Expr::Element(_) => false,
        Expr::Block(es) => lowerable_list(es@),
        Expr::Assign { target, value } => lowerable(*target) && lowerable(*value),
        Expr::Throw(x) => lowerable(*x),
        Expr::Return(v) => match v {
            Some(x) => lowerable(*x),
            None => true,
        },
        Expr::While { cond, body } => lowerable(*cond) && lowerable(*body),
        Expr::Try { block, catch, finally, .. } => lowerable_list(block@) && (match catch {
            Some(c) => lowerable_list(c@),
            None => true,
        }) && (match finally {
            Some(f) => lowerable_list(f@),
            None => true,
        }),
    }
}

/// Every expression of the list at a position below `n` lowers (a
/// template lowers one interpolation per literal part).
pub open spec fn lowerable_upto(s: Seq<Expr>, n: int) -> bool
    decreases s, 4nat,
{
    if s.len() == 0 {
        true
    } else {
        lowerable_upto(s.drop_last(), n) && (s.len() - 1 < n ==> lowerable(s.last()))
    }
}

/// Each expression of a list below position `n` that `lowerable_upto`
/// admits lowers.
pub proof fn lemma_lowerable_upto(s: Seq<Expr>, n: int, i: int)
    requires
        0 <= i < s.len(),
        i < n,
        lowerable_upto(s, n),
    ensures
        lowerable(s[i]),
    decreases s.len(),
{
    if i < s.len() - 1 {
        lemma_lowerable_upto(s.drop_last(), n, i);
        assert(s.drop_last()[i] == s[i]);
    }
}

/// A list whose every expression below position `n` lowers satisfies
/// `lowerable_upto`.
pub proof fn lemma_lowerable_upto_all(s: Seq<Expr>, n: int)
    requires
        forall|i: int| 0 <= i < s.len() && i < n ==> #[trigger] lowerable(s[i]),
    ensures
        lowerable_upto(s, n),
    decreases s.len(),
{
    if s.len() > 0 {
        let d = s.drop_last();
        assert forall|i: int| 0 <= i < d.len() && i < n implies #[trigger] lowerable(d[i]) by {
            assert(d[i] == s[i]);
        }
        lemma_lowerable_upto_all(d, n);
        if s.len() - 1 < n {
            assert(lowerable(s[s.len() - 1]));
        }
    }
}

/// Every expression of the list lowers.
pub open spec fn lowerable_list(s: Seq<Expr>) -> bool
    decreases s, 4nat,
{
    if s.len() == 0 { true } else { lowerable_list(s.drop_last()) && lowerable(s.last()) }
}

/// Each item of a list that lowerable_list satisfies lowerable.
pub proof fn lemma_lowerable_list(s: Seq<Expr>, i: int)
    requires
        0 <= i < s.len(),
        lowerable_list(s),
    ensures
        lowerable(s[i]),
    decreases s.len(),
{
    if i < s.len() - 1 {
        lemma_lowerable_list(s.drop_last(), i);
        assert(s.drop_last()[i] == s[i]);
    }
}

/// A list whose every item satisfies lowerable satisfies lowerable_list.
pub proof fn lemma_lowerable_list_all(s: Seq<Expr>)
    requires
        forall|i: int| 0 <= i < s.len() ==> #[trigger] lowerable(s[i]),
    ensures
        lowerable_list(s),
    decreases s.len(),
{
    if s.len() > 0 {
        let d = s.drop_last();
        assert forall|i: int| 0 <= i < d.len() implies #[trigger] lowerable(d[i]) by {
            assert(d[i] == s[i]);
        }
        lemma_lowerable_list_all(d);
        assert(lowerable(s[s.len() - 1]));
    }
}

/// A call argument lowers.
pub open spec fn arg_lowerable(a: CallArg) -> bool
    decreases a, 4nat,
{
    match a {
        CallArg::Expr(x) => lowerable(x),
        CallArg::Spread(x) => lowerable(x),
    }
}

/// Every call argument lowers.
pub open spec fn lowerable_args(s: Seq<CallArg>) -> bool
    decreases s, 4nat,
{
    if s.len() == 0 { true } else { lowerable_args(s.drop_last()) && arg_lowerable(s.last()) }
}

/// Each item of a list that lowerable_args satisfies arg_lowerable.
pub proof fn lemma_lowerable_args(s: Seq<CallArg>, i: int)
    requires
        0 <= i < s.len(),
        lowerable_args(s),
    ensures
        arg_lowerable(s[i]),
    decreases s.len(),
{
    if i < s.len() - 1 {
        lemma_lowerable_args(s.drop_last(), i);
        assert(s.drop_last()[i] == s[i]);
    }
}

/// A list whose every item satisfies arg_lowerable satisfies lowerable_args.
pub proof fn lemma_lowerable_args_all(s: Seq<CallArg>)
    requires
        forall|i: int| 0 <= i < s.len() ==> #[trigger] arg_lowerable(s[i]),
    ensures
        lowerable_args(s),
    decreases s.len(),
{
    if s.len() > 0 {
        let d = s.drop_last();
        assert forall|i: int| 0 <= i < d.len() implies #[trigger] arg_lowerable(d[i]) by {
            assert(d[i] == s[i]);
        }
        lemma_lowerable_args_all(d);
        assert(arg_lowerable(s[s.len() - 1]));
    }
}

/// An array item lowers.
pub open spec fn item_lowerable(a: ArrayItem) -> bool
    decreases a, 4nat,
{
    match a {
        ArrayItem::Expr(x) => lowerable(x),
        ArrayItem::Spread(x) => lowerable(x),
    }
}

/// Every array item lowers.
pub open spec fn lowerable_items(s: Seq<ArrayItem>) -> bool
    decreases s, 4nat,
{
    if s.len() == 0 { true } else { lowerable_items(s.drop_last()) && item_lowerable(s.last()) }
}

/// Each item of a list that lowerable_items satisfies item_lowerable.
pub proof fn lemma_lowerable_items(s: Seq<ArrayItem>, i: int)
    requires
        0 <= i < s.len(),
        lowerable_items(s),
    ensures
        item_lowerable(s[i]),
    decreases s.len(),
{
    if i < s.len() - 1 {
        lemma_lowerable_items(s.drop_last(), i);
        assert(s.drop_last()[i] == s[i]);
    }
}

/// A list whose every item satisfies item_lowerable satisfies lowerable_items.
pub proof fn lemma_lowerable_items_all(s: Seq<ArrayItem>)
    requires
        forall|i: int| 0 <= i < s.len() ==> #[trigger] item_lowerable(s[i]),
    ensures
        lowerable_items(s),
    decreases s.len(),
{
    if s.len() > 0 {
        let d = s.drop_last();
        assert forall|i: int| 0 <= i < d.len() implies #[trigger] item_lowerable(d[i]) by {
            assert(d[i] == s[i]);
        }
        lemma_lowerable_items_all(d);
        assert(item_lowerable(s[s.len() - 1]));
    }
}

/// An object item's value lowers.
pub open spec fn object_lowerable(a: ObjectItem) -> bool
    decreases a, 4nat,
{
    match a {
        ObjectItem::Shorthand(_) => true,
        ObjectItem::Prop(_, x) => lowerable(x),
        ObjectItem::Spread(x) => lowerable(x),
    }
}

/// Every object item's value lowers.
pub open spec fn lowerable_objects(s: Seq<ObjectItem>) -> bool
    decreases s, 4nat,
{
    if s.len() == 0 { true } else { lowerable_objects(s.drop_last()) && object_lowerable(s.last()) }
}

/// Each item of a list that lowerable_objects satisfies object_lowerable.
pub proof fn lemma_lowerable_objects(s: Seq<ObjectItem>, i: int)
    requires
        0 <= i < s.len(),
        lowerable_objects(s),
    ensures
        object_lowerable(s[i]),
    decreases s.len(),
{
    if i < s.len() - 1 {
        lemma_lowerable_objects(s.drop_last(), i);
        assert(s.drop_last()[i] == s[i]);
    }
}

/// A list whose every item satisfies object_lowerable satisfies lowerable_objects.
pub proof fn lemma_lowerable_objects_all(s: Seq<ObjectItem>)
    requires
        forall|i: int| 0 <= i < s.len() ==> #[trigger] object_lowerable(s[i]),
    ensures
        lowerable_objects(s),
    decreases s.len(),
{
    if s.len() > 0 {
        let d = s.drop_last();
        assert forall|i: int| 0 <= i < d.len() implies #[trigger] object_lowerable(d[i]) by {
            assert(d[i] == s[i]);
        }
        lemma_lowerable_objects_all(d);
        assert(object_lowerable(s[s.len() - 1]));
    }
}

/// Every default inside a binding pattern lowers.
pub open spec fn pattern_ok(p: Pattern) -> bool
    decreases p, 3nat,
{
    match p {
        Pattern::Name { default, .. } => match default {
            Some(d) => lowerable(d),
            None => true,
        },
        Pattern::Object { props, .. } => props_ok(props@),
        Pattern::Array { items, .. } => pattern_items_ok(items@),
    }
}

/// An aliased property pattern's defaults lower.
pub open spec fn prop_ok(p: ObjectProp) -> bool
    decreases p, 2nat,
{
    match p.alias {
        Some(a) => pattern_ok(a),
        None => true,
    }
}

/// Every aliased property pattern's defaults lower.
pub open spec fn props_ok(s: Seq<ObjectProp>) -> bool
    decreases s, 2nat,
{
    if s.len() == 0 { true } else { props_ok(s.drop_last()) && prop_ok(s.last()) }
}

/// Each item of a list that props_ok satisfies prop_ok.
pub proof fn lemma_props_ok(s: Seq<ObjectProp>, i: int)
    requires
        0 <= i < s.len(),
        props_ok(s),
    ensures
        prop_ok(s[i]),
    decreases s.len(),
{
    if i < s.len() - 1 {
        lemma_props_ok(s.drop_last(), i);
        assert(s.drop_last()[i] == s[i]);
    }
}

/// A list whose every item satisfies prop_ok satisfies props_ok.
pub proof fn lemma_props_ok_all(s: Seq<ObjectProp>)
    requires
        forall|i: int| 0 <= i < s.len() ==> #[trigger] prop_ok(s[i]),
    ensures
        props_ok(s),
    decreases s.len(),
{
    if s.len() > 0 {
        let d = s.drop_last();
        assert forall|i: int| 0 <= i < d.len() implies #[trigger] prop_ok(d[i]) by {
            assert(d[i] == s[i]);
        }
        lemma_props_ok_all(d);
        assert(prop_ok(s[s.len() - 1]));
    }
}

/// An element pattern's defaults lower.
pub open spec fn pattern_item_ok(p: Option<Pattern>) -> bool
    decreases p, 2nat,
{
    match p {
        Some(x) => pattern_ok(x),
        None => true,
    }
}

/// Every element pattern's defaults lower.
pub open spec fn pattern_items_ok(s: Seq<Option<Pattern>>) -> bool
    decreases s, 2nat,
{
    if s.len() == 0 { true } else { pattern_items_ok(s.drop_last()) && pattern_item_ok(s.last()) }
}

/// Each item of a list that pattern_items_ok satisfies pattern_item_ok.
pub proof fn lemma_pattern_items_ok(s: Seq<Option<Pattern>>, i: int)
    requires
        0 <= i < s.len(),
        pattern_items_ok(s),
    ensures
        pattern_item_ok(s[i]),
    decreases s.len(),
{
    if i < s.len() - 1 {
        lemma_pattern_items_ok(s.drop_last(), i);
        assert(s.drop_last()[i] == s[i]);
    }
}

/// A list whose every item satisfies pattern_item_ok satisfies pattern_items_ok.
pub proof fn lemma_pattern_items_ok_all(s: Seq<Option<Pattern>>)
    requires
        forall|i: int| 0 <= i < s.len() ==> #[trigger] pattern_item_ok(s[i]),
    ensures
        pattern_items_ok(s),
    decreases s.len(),
{
    if s.len() > 0 {
        let d = s.drop_last();
        assert forall|i: int| 0 <= i < d.len() implies #[trigger] pattern_item_ok(d[i]) by {
            assert(d[i] == s[i]);
        }
        lemma_pattern_items_ok_all(d);
        assert(pattern_item_ok(s[s.len() - 1]));
    }
}

/// The number of bindings a pattern makes: one per name, plus one for a
/// rest binding.
pub open spec fn pattern_count(p: Pattern) -> nat
    decreases p, 3nat,
{
    match p {
        Pattern::Name { .. } => 1,
        Pattern::Object { props, rest } => props_count(props@) + (if rest is Some { 1nat } else { 0nat }),
        Pattern::Array { items, rest } => items_count(items@) + (if rest is Some { 1nat } else { 0nat }),
    }
}

/// The bindings of a list of property patterns.
pub open spec fn props_count(s: Seq<ObjectProp>) -> nat
    decreases s, 2nat,
{
    if s.len() == 0 {
        0
    } else {
        props_count(s.drop_last()) + match s.last().alias {
            Some(a) => pattern_count(a),
            None => 1nat,
        }
    }
}

/// The bindings of a list of element patterns.
pub open spec fn items_count(s: Seq<Option<Pattern>>) -> nat
    decreases s, 2nat,
{
    if s.len() == 0 {
        0
    } else {
        items_count(s.drop_last()) + match s.last() {
            Some(x) => pattern_count(x),
            None => 0nat,
        }
    }
}

/// The default a parameter takes: its own, or else its name pattern's.
pub open spec fn param_default(p: Param) -> Option<Expr> {
    match p.default {
        Some(d) => Some(d),
        None => match p.pattern {
            Pattern::Name { default, .. } => default,
            _ => None,
        },
    }
}

/// A parameter lowers: it is no rest parameter; a name takes its own default,
/// or else its pattern's, which must lower; a destructuring pattern has no
/// default of its own and its inner defaults lower.
pub open spec fn param_ok(p: Param) -> bool
    decreases p, 4nat,
{
    !p.rest && match p.pattern {
        Pattern::Name { default: nd, .. } => match p.default {
            Some(d) => lowerable(d),
            None => match nd {
                Some(d) => lowerable(d),
                None => true,
            },
        },
        _ => p.default is None && pattern_ok(p.pattern),
    }
}

/// Every parameter lowers.
pub open spec fn params_ok(s: Seq<Param>) -> bool
    decreases s, 4nat,
{
    if s.len() == 0 { true } else { params_ok(s.drop_last()) && param_ok(s.last()) }
}

/// Each item of a list that params_ok satisfies param_ok.
pub proof fn lemma_params_ok(s: Seq<Param>, i: int)
    requires
        0 <= i < s.len(),
        params_ok(s),
    ensures
        param_ok(s[i]),
    decreases s.len(),
{
    if i < s.len() - 1 {
        lemma_params_ok(s.drop_last(), i);
        assert(s.drop_last()[i] == s[i]);
    }
}

/// A list whose every item satisfies param_ok satisfies params_ok.
pub proof fn lemma_params_ok_all(s: Seq<Param>)
    requires
        forall|i: int| 0 <= i < s.len() ==> #[trigger] param_ok(s[i]),
    ensures
        params_ok(s),
    decreases s.len(),
{
    if s.len() > 0 {
        let d = s.drop_last();
        assert forall|i: int| 0 <= i < d.len() implies #[trigger] param_ok(d[i]) by {
            assert(d[i] == s[i]);
        }
        lemma_params_ok_all(d);
        assert(param_ok(s[s.len() - 1]));
    }
}

/// The statements a parameter list needs before the body: one defaulting
/// assignment per defaulted name, and the bindings of each pattern.
pub open spec fn binds_count(s: Seq<Param>) -> nat
    decreases s.len(),
{
    if s.len() == 0 {
        0
    } else {
        binds_count(s.drop_last()) + match s.last().pattern {
            Pattern::Name { .. } => if param_default(s.last()) is Some { 1nat } else { 0nat },
            _ => pattern_count(s.last().pattern),
        }
    }
}

/// A statement lowers.
pub open spec fn stmt_ok(st: Stmt) -> bool
    decreases st, 4nat,
{
    match st {
        Stmt::Let { value, .. } => lowerable(value),
        Stmt::Const { value, .. } => lowerable(value),
        Stmt::Destructure { pattern, value, .. } => lowerable(value) && pattern_ok(pattern),
        Stmt::Return(x) => lowerable(x),
        Stmt::Expr(x) => lowerable(x),
        Stmt::If { cond, then, else_ } => stmts_ok(then@) && (match else_ {
            Some(s) => stmts_ok(s@),
            None => true,
        }) && lowerable(cond),
        Stmt::While { cond, body } => stmts_ok(body@) && lowerable(cond),
        Stmt::For { init, cond, update, body } => (match init {
            Some(i) => stmt_ok(*i),
            None => true,
        }) && stmts_ok(body@) && (match cond {
            Some(c) => lowerable(c),
            None => true,
        }) && (match update {
            Some(u) => lowerable(u),
            None => true,
        }),
        Stmt::Switch { disc, cases } => cases_ok(cases@) && lowerable(disc),
        Stmt::Break => true,
        Stmt::Continue => true,
    }
}

/// Every statement lowers.
pub open spec fn stmts_ok(s: Seq<Stmt>) -> bool
    decreases s, 3nat,
{
    if s.len() == 0 { true } else { stmts_ok(s.drop_last()) && stmt_ok(s.last()) }
}

/// How many IR statements the lowering of `st` appends: a destructuring
/// one for its temporary and one per binding, a `for` its initializer's
/// and then the loop, any other statement one.
pub open spec fn emit_count(st: Stmt) -> nat
    decreases st,
{
    match st {
        Stmt::Destructure { pattern, .. } => 1 + pattern_count(pattern),
        Stmt::For { init, .. } => match init {
            Some(i) => emit_count(*i) + 1,
            None => 1,
        },
        _ => 1,
    }
}

/// `t` is what lowering the statement `st` appends: a binding assigns the
/// lowered value to its name, `return` and expression statements carry the
/// lowered expression, `if` becomes a conditional whose then block lowers
/// the `then` statements and whose else block lowers the `else` statements
/// (or is `null` without them), `while` and `for` become loops over the
/// lowered body (a `for` runs its initializer first; its missing condition
/// is `true`), `switch` tests the lowered discriminant against its lowered
/// cases, with the body of its last default case, and `break` and
/// `continue` stay themselves. A destructuring first assigns the lowered
/// value to a temporary, then each binding; every part is an assignment to
/// a plain variable.
pub open spec fn stmt_emits(st: Stmt, t: Seq<JsExpr>) -> bool
    decreases st, 2nat,
{
    &&& t.len() == emit_count(st)
    &&& match st {
        Stmt::Let { name, value } => t[0] matches JsExpr::Assign { target, value: v }
            && (*target matches JsExpr::Var(n) && n@ == name@) && lowered(value, *v),
        Stmt::Const { name, value } => t[0] matches JsExpr::Assign { target, value: v }
            && (*target matches JsExpr::Var(n) && n@ == name@) && lowered(value, *v),
        Stmt::Destructure { value, .. } => (t[0] matches JsExpr::Assign { value: v, .. } && lowered(value, *v))
            && forall|k: int| 0 <= k < t.len() ==> #[trigger] binds_var(t[k]),
        Stmt::Return(x) => t[0] matches JsExpr::Return(Some(v)) && lowered(x, *v),
        Stmt::Expr(x) => lowered(x, t[0]),
        Stmt::If { cond, then, else_ } => t[0] matches JsExpr::If { cond: c, then: a, else_: b }
            && lowered(cond, *c)
            && (*a matches JsExpr::Block(ta) && stmts_emit(then@, ta@))
            && (*b matches JsExpr::Block(tb) && match else_ {
                Some(e) => stmts_emit(e@, tb@),
                None => tb@ == seq![JsExpr::Lit(Literal::Null)],
            }),
        Stmt::While { cond, body } => t[0] matches JsExpr::While { cond: c, body: b, step }
            && lowered(cond, *c) && step is None && (*b matches JsExpr::Block(tb) && stmts_emit(body@, tb@)),
        Stmt::For { init, cond, update, body } => {
            let k = t.len() - 1;
            &&& match init {
                Some(i) => stmt_emits(*i, t.take(k)),
                None => true,
            }
            &&& t[k] matches JsExpr::While { cond: c, body: b, step }
            &&& match cond {
                Some(x) => lowered(x, *c),
                None => *c == JsExpr::Lit(Literal::Bool(true)),
            }
            &&& match update {
                Some(u) => step matches Some(y) && lowered(u, *y),
                None => step is None,
            }
            &&& (*b matches JsExpr::Block(tb) && stmts_emit(body@, tb@))
        },
        Stmt::Switch { disc, cases } => t[0] matches JsExpr::Switch { disc: d, cases: lc, default }
            && lowered(disc, *d) && switch_cases_emit(cases@, lc@) && default_emit(cases@, default),
        Stmt::Break => t[0] == JsExpr::Break,
        Stmt::Continue => t[0] == JsExpr::Continue,
    }
}

/// A template that ends with an interpolation (`...${e}`, its last literal
/// part empty) lowers to a sum whose last operand is the lowering of that
/// interpolation, or to that lowering alone when it is the only piece: no
/// interpolation is dropped from the end.
pub proof fn law_template_ends_with_its_last_interpolation(parts: Seq<String>, exprs: Seq<Expr>, j: JsExpr)
    requires
        template_lowered(parts, exprs, j),
        parts.len() == exprs.len() + 1,
        exprs.len() >= 1,
        parts.last()@.len() == 0,
    ensures
        (j matches JsExpr::Bin { op, right, .. } && op == JsBinOp::Add && lowered(exprs.last(), *right))
            || lowered(exprs.last(), j),
{
    let ne = exprs.len() as int;
    let slots = template_slots(parts, ne);
    let pre = template_slots(parts.drop_last(), ne);
    let pre2 = template_slots(parts.drop_last().drop_last(), ne);
    assert(parts.drop_last()[ne - 1] == parts[ne - 1]);
    assert(slots =~= pre);
    let lit: Seq<(bool, int)> = if parts[ne - 1]@.len() > 0 { seq![(true, ne - 1)] } else { Seq::empty() };
    assert(pre =~= pre2 + lit + seq![(false, ne - 1)]);
    assert(slots.last() == (false, ne - 1));
    let m = slots.len();
    if m > 1 {
        assert(template_chain(parts, exprs, slots, m, j));
    }
}

/// `lc` are the cases with a test of `cases` lowered, in order: each test
/// lowered, each body the lowering of its statements.
pub open spec fn switch_cases_emit(cases: Seq<(Option<Expr>, Vec<Stmt>)>, lc: Seq<SwitchCase>) -> bool
    decreases cases, 2nat,
{
    if cases.len() == 0 {
        lc.len() == 0
    } else {
        match cases.last().0 {
            Some(t) => lc.len() > 0 && switch_cases_emit(cases.drop_last(), lc.drop_last())
                && lowered(t, lc.last().test) && stmts_emit(cases.last().1@, lc.last().body@),
            None => switch_cases_emit(cases.drop_last(), lc),
        }
    }
}

/// `d` is the lowered body of the last default case of `cases`, and none
/// without one.
pub open spec fn default_emit(cases: Seq<(Option<Expr>, Vec<Stmt>)>, d: Option<Vec<JsExpr>>) -> bool
    decreases cases, 2nat,
{
    if cases.len() == 0 {
        d is None
    } else {
        match cases.last().0 {
            None => d matches Some(b) && stmts_emit(cases.last().1@, b@),
            Some(_) => default_emit(cases.drop_last(), d),
        }
    }
}

/// `t` is what lowering the statements `s` appends: each statement's part,
/// in order.
pub open spec fn stmts_emit(s: Seq<Stmt>, t: Seq<JsExpr>) -> bool
    decreases s, 1nat,
{
    if s.len() == 0 {
        t.len() == 0
    } else {
        let c = emit_count(s.last());
        &&& t.len() >= c
        &&& stmts_emit(s.drop_last(), t.take(t.len() - c))
        &&& stmt_emits(s.last(), t.skip(t.len() - c))
    }
}

/// Lowering two runs of statements one after the other appends their
/// lowerings one after the other: the lowering of a block is the
/// concatenation of the lowerings of its parts, in order.
pub proof fn law_statements_lower_in_order(s1: Seq<Stmt>, t1: Seq<JsExpr>, s2: Seq<Stmt>, t2: Seq<JsExpr>)
    requires
        stmts_emit(s1, t1),
        stmts_emit(s2, t2),
    ensures
        stmts_emit(s1 + s2, t1 + t2),
    decreases s2.len(),
{
    if s2.len() == 0 {
        assert(s1 + s2 =~= s1);
        assert(t1 + t2 =~= t1);
    } else {
        let c = emit_count(s2.last());
        let t2a = t2.take(t2.len() - c);
        law_statements_lower_in_order(s1, t1, s2.drop_last(), t2a);
        let s = s1 + s2;
        let t = t1 + t2;
        assert(s.drop_last() =~= s1 + s2.drop_last());
        assert(s.last() == s2.last());
        assert(t.take(t.len() - c) =~= t1 + t2a);
        assert(t.skip(t.len() - c) =~= t2.skip(t2.len() - c));
    }
}

/// Each item of a list that stmts_ok satisfies stmt_ok.
pub proof fn lemma_stmts_ok(s: Seq<Stmt>, i: int)
    requires
        0 <= i < s.len(),
        stmts_ok(s),
    ensures
        stmt_ok(s[i]),
    decreases s.len(),
{
    if i < s.len() - 1 {
        lemma_stmts_ok(s.drop_last(), i);
        assert(s.drop_last()[i] == s[i]);
    }
}

/// A list whose every item satisfies stmt_ok satisfies stmts_ok.
pub proof fn lemma_stmts_ok_all(s: Seq<Stmt>)
    requires
        forall|i: int| 0 <= i < s.len() ==> #[trigger] stmt_ok(s[i]),
    ensures
        stmts_ok(s),
    decreases s.len(),
{
    if s.len() > 0 {
        let d = s.drop_last();
        assert forall|i: int| 0 <= i < d.len() implies #[trigger] stmt_ok(d[i]) by {
            assert(d[i] == s[i]);
        }
        lemma_stmts_ok_all(d);
        assert(stmt_ok(s[s.len() - 1]));
    }
}

/// A `switch` case lowers: its body, and its test when it has one.
pub open spec fn case_ok(c: (Option<Expr>, Vec<Stmt>)) -> bool
    decreases c, 3nat,
{
    stmts_ok(c.1@) && match c.0 {
        Some(t) => lowerable(t),
        None => true,
    }
}

/// Every `switch` case lowers.
pub open spec fn cases_ok(s: Seq<(Option<Expr>, Vec<Stmt>)>) -> bool
    decreases s, 3nat,
{
    if s.len() == 0 { true } else { cases_ok(s.drop_last()) && case_ok(s.last()) }
}

/// Each item of a list that cases_ok satisfies case_ok.
pub proof fn lemma_cases_ok(s: Seq<(Option<Expr>, Vec<Stmt>)>, i: int)
    requires
        0 <= i < s.len(),
        cases_ok(s),
    ensures
        case_ok(s[i]),
    decreases s.len(),
{
    if i < s.len() - 1 {
        lemma_cases_ok(s.drop_last(), i);
        assert(s.drop_last()[i] == s[i]);
    }
}

/// A list whose every item satisfies case_ok satisfies cases_ok.
pub proof fn lemma_cases_ok_all(s: Seq<(Option<Expr>, Vec<Stmt>)>)
    requires
        forall|i: int| 0 <= i < s.len() ==> #[trigger] case_ok(s[i]),
    ensures
        cases_ok(s),
    decreases s.len(),
{
    if s.len() > 0 {
        let d = s.drop_last();
        assert forall|i: int| 0 <= i < d.len() implies #[trigger] case_ok(d[i]) by {
            assert(d[i] == s[i]);
        }
        lemma_cases_ok_all(d);
        assert(case_ok(s[s.len() - 1]));
    }
}

/// A statement of an async body lowers: a suspension as a statement value
/// (`x = await v`, with a plain binding as target; `await v`; `yield v`) or a
/// statement without one.
pub open spec fn segment_ok(e: Expr) -> bool
    decreases e, 6nat,
{
    match e {
        Expr::Assign { target, value } => match *value {
            Expr::Await { value: v, .. } => (*target) is Ident && lowerable(*v),
            Expr::Yield { value: v, .. } => (*target) is Ident && match v {
                Some(x) => lowerable(*x),
                None => true,
            },
            _ => !suspends(e) && lowerable(e),
        },
        Expr::Await { value, .. } => lowerable(*value),
        Expr::Yield { value, .. } => match value {
            Some(x) => lowerable(*x),
            None => true,
        },
        _ => !suspends(e) && lowerable(e),
    }
}

/// Every statement of an async body lowers.
pub open spec fn segments_list_ok(s: Seq<Expr>) -> bool
    decreases s, 3nat,
{
    if s.len() == 0 { true } else { segments_list_ok(s.drop_last()) && segment_ok(s.last()) }
}

/// Each item of a list that segments_list_ok satisfies segment_ok.
pub proof fn lemma_segments_list_ok(s: Seq<Expr>, i: int)
    requires
        0 <= i < s.len(),
        segments_list_ok(s),
    ensures
        segment_ok(s[i]),
    decreases s.len(),
{
    if i < s.len() - 1 {
        lemma_segments_list_ok(s.drop_last(), i);
        assert(s.drop_last()[i] == s[i]);
    }
}

/// A list whose every item satisfies segment_ok satisfies segments_list_ok.
pub proof fn lemma_segments_list_ok_all(s: Seq<Expr>)
    requires
        forall|i: int| 0 <= i < s.len() ==> #[trigger] segment_ok(s[i]),
    ensures
        segments_list_ok(s),
    decreases s.len(),
{
    if s.len() > 0 {
        let d = s.drop_last();
        assert forall|i: int| 0 <= i < d.len() implies #[trigger] segment_ok(d[i]) by {
            assert(d[i] == s[i]);
        }
        lemma_segments_list_ok_all(d);
        assert(segment_ok(s[s.len() - 1]));
    }
}

/// An async arrow's body lowers: a block statement by statement, any other
/// body as its one statement.
pub open spec fn segments_ok(body: Expr) -> bool
    decreases body, 7nat,
{
    match body {
        Expr::Block(ss) => segments_list_ok(ss@),
        _ => segment_ok(body),
    }
}


// ---------------------------------------------------------------------------
// What lowering gives.

/// Two optional names with the same text.
pub open spec fn same_opt_name(a: Option<String>, b: Option<String>) -> bool {
    match a {
        Some(x) => b matches Some(y) && y@ == x@,
        None => b is None,
    }
}

/// `j` is the lowering of `e`: each construct becomes its IR counterpart,
/// with its parts lowered the same way: a template joins its pieces with
/// `+`, a function's block binds its parameters and then holds the lowering
/// of its statements. An arrow's body and an async state machine are not
/// described beyond their form.
pub open spec fn lowered(e: Expr, j: JsExpr) -> bool
    decreases e, 5nat,
{
    match e {
        Expr::Literal(l) => j == JsExpr::Lit(l),
        Expr::Ident { name, .. } => if name@ == "undefined"@ {
            j == JsExpr::Lit(Literal::Undefined)
        } else {
            j matches JsExpr::Var(v) && v@ == name@
        },
        Expr::Member { base, prop } => j matches JsExpr::Get { base: b, prop: p } && p@ == prop@
            && lowered(*base, *b),
        Expr::Binary { op, left, right } => j matches JsExpr::Bin { op: o, left: l, right: r }
            && js_binop_text(o) == binop_text(op) && lowered(*left, *l) && lowered(*right, *r),
        Expr::Unary { op, expr } => j matches JsExpr::Un { op: o, expr: x } && js_unop_text(o) == unop_text(op)
            && lowered(*expr, *x),
        Expr::Call { callee, args } => match *callee {
            Expr::Member { base, prop } => if prop@ == "get"@ && args@.len() == 1 && args@[0] is Expr {
                j matches JsExpr::Index { base: b, key: k } && lowered(*base, *b) && lowered(args@[0]->Expr_0, *k)
            } else {
                j matches JsExpr::Call { callee: c, args: a } && lowered(*callee, *c) && lowered_args(args@, a@)
            },
            _ => j matches JsExpr::Call { callee: c, args: a } && lowered(*callee, *c) && lowered_args(args@, a@),
        },
        Expr::New { callee, args } => j matches JsExpr::New { callee: c, args: a } && lowered(*callee, *c)
            && lowered_args(args@, a@),
        Expr::Array(items) => j matches JsExpr::Array(its) && lowered_items(items@, its@),
        Expr::Object(items) => j matches JsExpr::Object(its) && lowered_objects(items@, its@),
        Expr::Template { parts, exprs } => template_lowered(parts@, exprs@, j),
        Expr::Update { op, target, prefix } => j matches JsExpr::Update { inc, target: t, prefix: p }
            && inc == (op is Inc) && p == prefix && lowered(*target, *t),
        Expr::CompoundAssign { op, target, value } => j matches JsExpr::Assign { target: t, value: v }
            && lowered(*target, *t) && (*v matches JsExpr::Bin { op: o, left: l, right: r }
            && js_binop_text(o) == binop_text(op) && lowered(*target, *l) && lowered(*value, *r)),
        Expr::Ternary { cond, then, else_ } => j matches JsExpr::If { cond: c, then: t, else_: x }
            && lowered(*cond, *c) && lowered(*then, *t) && lowered(*else_, *x),
        Expr::Arrow { params, async_, .. } => if async_ {
            j matches JsExpr::AsyncFn { params: p, .. } && p@.len() == params@.len()
        } else {
            j matches JsExpr::Closure { params: p, captures: c, .. } && p@.len() == params@.len() && c@.len() == 0
        },
        Expr::Function { params, body, .. } => j matches JsExpr::Closure { params: p, captures: c, body: b }
            && p@.len() == params@.len() && c@.len() == 0 && (*b matches JsExpr::Block(bb)
            && bb@.len() >= binds_count(params@) && stmts_emit(body@, bb@.skip(binds_count(params@) as int))),
        Expr::Await { .. } => false,
        Expr::Yield { .. } => false,
        Expr::Element(_) => false,
        Expr::Block(es) => j matches JsExpr::Block(t) && lowered_list(es@, t@),
        Expr::Assign { target, value } => j matches JsExpr::Assign { target: t, value: v }
            && lowered(*target, *t) && lowered(*value, *v),
        Expr::Throw(x) => j matches JsExpr::Throw { value: v } && lowered(*x, *v),
        Expr::Return(v) => j matches JsExpr::Return(w) && match v {
            Some(x) => w matches Some(y) && lowered(*x, *y),
            None => w is None,
        },
        Expr::While { cond, body } => j matches JsExpr::While { cond: c, body: b, step: st }
            && lowered(*cond, *c) && lowered(*body, *b) && st is None,
        Expr::Break => j == JsExpr::Break,
        Expr::Continue => j == JsExpr::Continue,
        Expr::Try { block, catch_param, catch, finally } => j matches JsExpr::Try { block: b, catch_param: cp,
            catch: c, finally: f } && lowered_list(block@, b@) && same_opt_name(catch_param, cp) && (match catch {
                Some(x) => c matches Some(y) && lowered_list(x@, y@),
                None => c is None,
            }) && (match finally {
                Some(x) => f matches Some(y) && lowered_list(x@, y@),
                None => f is None,
            }),
        Expr::DynImport { specifier } => j matches JsExpr::Var(v) && v@ == "@module:"@ + specifier@,
    }
}

/// The pieces of a template, in order, each as (whether it is a literal
/// part, its index): part `i` when it is non-empty, then interpolation `i`
/// when there is one (`i < n`, `n` the number of interpolations).
pub open spec fn template_slots(parts: Seq<String>, n: int) -> Seq<(bool, int)>
    decreases parts.len(),
{
    if parts.len() == 0 {
        Seq::empty()
    } else {
        let i = parts.len() - 1;
        template_slots(parts.drop_last(), n) + (if parts[i]@.len() > 0 {
            seq![(true, i as int)]
        } else {
            Seq::empty()
        }) + (if i < n { seq![(false, i as int)] } else { Seq::empty() })
    }
}

/// `x` is the piece `slot` of a template: the literal part as a string, or
/// the lowering of the interpolation.
pub open spec fn template_piece(parts: Seq<String>, exprs: Seq<Expr>, slot: (bool, int), x: JsExpr) -> bool
    decreases exprs, 0nat,
{
    if slot.0 {
        0 <= slot.1 < parts.len() && x == JsExpr::Lit(Literal::String(parts[slot.1]))
    } else {
        0 <= slot.1 < exprs.len() && lowered(exprs[slot.1], x)
    }
}

/// `j` joins the first `m` pieces named by `slots` with `+`, left to
/// right: `((p0 + p1) + p2) + ...`.
pub open spec fn template_chain(parts: Seq<String>, exprs: Seq<Expr>, slots: Seq<(bool, int)>, m: nat,
    j: JsExpr) -> bool
    decreases exprs, m,
{
    if m == 0 || m > slots.len() {
        false
    } else if m == 1 {
        template_piece(parts, exprs, slots[0], j)
    } else {
        j matches JsExpr::Bin { op, left, right } && op == JsBinOp::Add
            && template_chain(parts, exprs, slots, (m - 1) as nat, *left)
            && template_piece(parts, exprs, slots[m - 1], *right)
    }
}

/// `j` is the lowering of the template with literal parts `parts` and
/// interpolations `exprs`: every non-empty part and every interpolation (one
/// after each part, as far as there are parts) joined with `+` from left to
/// right, or the empty string when there is nothing to join.
pub open spec fn template_lowered(parts: Seq<String>, exprs: Seq<Expr>, j: JsExpr) -> bool
    decreases exprs, template_slots(parts, exprs.len() as int).len() + 1,
{
    let slots = template_slots(parts, exprs.len() as int);
    if slots.len() == 0 {
        j matches JsExpr::Lit(Literal::String(x)) && x@.len() == 0
    } else {
        template_chain(parts, exprs, slots, slots.len(), j)
    }
}

/// A chain over some slots is a chain over any extension of them.
pub proof fn lemma_template_chain_extend(parts: Seq<String>, exprs: Seq<Expr>, s: Seq<(bool, int)>,
    t: Seq<(bool, int)>, m: nat, j: JsExpr)
    requires
        template_chain(parts, exprs, s, m, j),
    ensures
        template_chain(parts, exprs, s + t, m, j),
    decreases m,
{
    assert((s + t)[m - 1] == s[m - 1]);
    assert((s + t)[0] == s[0]);
    if m > 1 {
        if let JsExpr::Bin { left, .. } = j {
            lemma_template_chain_extend(parts, exprs, s, t, (m - 1) as nat, *left);
        }
    }
}

/// `t` lowers `s` item by item.
pub open spec fn lowered_list(s: Seq<Expr>, t: Seq<JsExpr>) -> bool
    decreases s, 4nat,
{
    if s.len() == 0 {
        t.len() == 0
    } else {
        t.len() == s.len() && lowered_list(s.drop_last(), t.drop_last()) && lowered(s.last(), t.last())
    }
}

/// `t` lowers the call arguments `s`; a spread stays a spread.
pub open spec fn lowered_args(s: Seq<CallArg>, t: Seq<JsExpr>) -> bool
    decreases s, 4nat,
{
    if s.len() == 0 {
        t.len() == 0
    } else {
        t.len() == s.len() && lowered_args(s.drop_last(), t.drop_last()) && match s.last() {
            CallArg::Expr(x) => lowered(x, t.last()),
            CallArg::Spread(x) => t.last() matches JsExpr::SpreadArg(y) && lowered(x, *y),
        }
    }
}

/// `t` lowers the array items `s`.
pub open spec fn lowered_items(s: Seq<ArrayItem>, t: Seq<JsArrayItem>) -> bool
    decreases s, 4nat,
{
    if s.len() == 0 {
        t.len() == 0
    } else {
        t.len() == s.len() && lowered_items(s.drop_last(), t.drop_last()) && match s.last() {
            ArrayItem::Expr(x) => t.last() matches JsArrayItem::Expr(y) && lowered(x, y),
            ArrayItem::Spread(x) => t.last() matches JsArrayItem::Spread(y) && lowered(x, y),
        }
    }
}

/// `t` lowers the object items `s`.
pub open spec fn lowered_objects(s: Seq<ObjectItem>, t: Seq<JsObjectItem>) -> bool
    decreases s, 4nat,
{
    if s.len() == 0 {
        t.len() == 0
    } else {
        t.len() == s.len() && lowered_objects(s.drop_last(), t.drop_last()) && match s.last() {
            ObjectItem::Shorthand(n) => t.last() matches JsObjectItem::Shorthand(m) && m@ == n@,
            ObjectItem::Prop(k, x) => t.last() matches JsObjectItem::Prop(k2, y) && k2@ == k@ && lowered(x, y),
            ObjectItem::Spread(x) => t.last() matches JsObjectItem::Spread(y) && lowered(x, y),
        }
    }
}

// ---------------------------------------------------------------------------
// Bindings.

/// An assignment to a plain variable.
pub open spec fn binds_var(j: JsExpr) -> bool {
    j matches JsExpr::Assign { target, .. } && *target is Var
}

/// One access on the way from a destructured value to a part of it.
pub enum Access {
    Key(String),
    At(usize),
}

/// The expression reading the part of `root` that `steps` lead to.
fn path_expr(root: &String, steps: &Vec<Access>) -> JsExpr {
    let mut e = JsExpr::Var(owned(root.as_str()));
    let n = steps.len();
    for i in 0..n
        invariant
            n == steps@.len(),
    {
        e = match &steps[i] {
            Access::Key(k) => JsExpr::Get { base: Box::new(e), prop: owned(k.as_str()) },
            Access::At(j) => JsExpr::Index {
                base: Box::new(e),
                key: Box::new(JsExpr::Lit(Literal::Int(*j as i64))),
            },
        };
    }
    e
}

/// A lowering error with the message `parts` joined.
pub(crate) fn unsupported(a: &str, b: &str, c: &str) -> (r: LowerError) {
    let mut m: Vec<char> = Vec::new();
    push_str(&mut m, a);
    push_str(&mut m, b);
    push_str(&mut m, c);
    LowerError::Unsupported(string_from_chars(&m))
}

/// Bind every name of `pattern` from the part of `root` that `steps` lead
/// to, appending one assignment per binding to `out`.
#[verifier::loop_isolation(false)]
#[verifier::spinoff_prover]
#[verifier::rlimit(100)]
fn lower_pattern_into(pattern: &Pattern, root: &String, steps: &mut Vec<Access>, index: &Vec<(String, usize)>,
    out: &mut Vec<JsExpr>, fresh: &mut u64) -> (r: Result<(), LowerError>)
    ensures
        r is Err <==> !pattern_ok(*pattern),
        r is Ok ==> final(out)@.len() == old(out)@.len() + pattern_count(*pattern),
        final(steps)@ == old(steps)@,
        final(out)@.len() >= old(out)@.len(),
        forall|k: int| 0 <= k < old(out)@.len() ==> final(out)@[k] == old(out)@[k],
        forall|k: int| old(out)@.len() <= k < final(out)@.len() ==> #[trigger] binds_var(final(out)@[k]),
    decreases pattern, 8nat,
{
    match pattern {
        Pattern::Name { name, default } => {
            let rhs = match default {
                Some(d) => {
                    let v = lower_expr(d, index, fresh)?;
                    JsExpr::If {
                        cond: Box::new(JsExpr::Bin {
                            op: JsBinOp::StrictEq,
                            left: Box::new(path_expr(root, steps)),
                            right: Box::new(JsExpr::Lit(Literal::Undefined)),
                        }),
                        then: Box::new(v),
                        else_: Box::new(path_expr(root, steps)),
                    }
                },
                None => path_expr(root, steps),
            };
            out.push(JsExpr::Assign { target: Box::new(JsExpr::Var(owned(name.as_str()))), value: Box::new(rhs) });
            Ok(())
        },
        Pattern::Object { props, rest } => {
            let n = props.len();
            let ghost start = out@.len();
            assert(props@.take(0) =~= Seq::<ObjectProp>::empty());
            for i in 0..n
                invariant
                    n == props@.len(),
                    steps@ == old(steps)@,
                    out@.len() == start + props_count(props@.take(i as int)),
                    out@.len() >= old(out)@.len(),
                    forall|k: int| 0 <= k < old(out)@.len() ==> out@[k] == old(out)@[k],
                    forall|k: int| old(out)@.len() <= k < out@.len() ==> #[trigger] binds_var(out@[k]),
                    forall|j: int| 0 <= j < i ==> #[trigger] prop_ok(props@[j]),
            {
                let pr = &props[i];
                proof {
                    assert(props@.take(i + 1).drop_last() =~= props@.take(i as int));
                    assert(props@.take(i + 1).last() == props@[i as int]);
                }
                match &pr.alias {
                    Some(alias) => {
                        assert(decreases_to!(*pattern => props@[i as int].alias->0));
                        steps.push(Access::Key(owned(pr.key.as_str())));
                        let res = lower_pattern_into(alias, root, steps, index, out, fresh);
                        steps.pop();
                        assert(steps@ =~= old(steps)@);
                        if res.is_err() {
                            proof {
                                if props_ok(props@) {
                                    lemma_props_ok(props@, i as int);
                                }
                            }
                            return res;
                        }
                    },
                    None => {
                        steps.push(Access::Key(owned(pr.key.as_str())));
                        let field = path_expr(root, steps);
                        steps.pop();
                        assert(steps@ =~= old(steps)@);
                        out.push(JsExpr::Assign {
                            target: Box::new(JsExpr::Var(owned(pr.key.as_str()))),
                            value: Box::new(field),
                        });
                    },
                }
            }
            assert(props@.take(n as int) =~= props@);
            proof { lemma_props_ok_all(props@); }
            match rest {
                Some(r) => {
                    let mut args: Vec<JsExpr> = Vec::new();
                    for i in 0..n {
                        args.push(JsExpr::Lit(Literal::String(owned(props[i].key.as_str()))));
                    }
                    out.push(JsExpr::Assign {
                        target: Box::new(JsExpr::Var(owned(r.as_str()))),
                        value: Box::new(JsExpr::Call {
                            callee: Box::new(JsExpr::Get { base: Box::new(path_expr(root, steps)), prop: owned("$rest") }),
                            args,
                        }),
                    });
                },
                None => {},
            }
            Ok(())
        },
        Pattern::Array { items, rest } => {
            let n = items.len();
            let ghost start = out@.len();
            assert(items@.take(0) =~= Seq::<Option<Pattern>>::empty());
            for i in 0..n
                invariant
                    n == items@.len(),
                    steps@ == old(steps)@,
                    out@.len() == start + items_count(items@.take(i as int)),
                    out@.len() >= old(out)@.len(),
                    forall|k: int| 0 <= k < old(out)@.len() ==> out@[k] == old(out)@[k],
                    forall|k: int| old(out)@.len() <= k < out@.len() ==> #[trigger] binds_var(out@[k]),
                    forall|j: int| 0 <= j < i ==> #[trigger] pattern_item_ok(items@[j]),
            {
                proof {
                    assert(items@.take(i + 1).drop_last() =~= items@.take(i as int));
                    assert(items@.take(i + 1).last() == items@[i as int]);
                }
                match &items[i] {
                    Some(p) => {
                        assert(decreases_to!(*pattern => items@[i as int]->0));
                        steps.push(Access::At(i));
                        let res = lower_pattern_into(p, root, steps, index, out, fresh);
                        steps.pop();
                        assert(steps@ =~= old(steps)@);
                        if res.is_err() {
                            proof {
                                if pattern_items_ok(items@) {
                                    lemma_pattern_items_ok(items@, i as int);
                                }
                            }
                            return res;
                        }
                    },
                    None => {},
                }
            }
            assert(items@.take(n as int) =~= items@);
            proof { lemma_pattern_items_ok_all(items@); }
            match rest {
                Some(r) => {
                    out.push(JsExpr::Assign {
                        target: Box::new(JsExpr::Var(owned(r.as_str()))),
                        value: Box::new(JsExpr::Call {
                            callee: Box::new(JsExpr::Get {
                                base: Box::new(path_expr(root, steps)),
                                prop: owned("$restFrom"),
                            }),
                            args: vec![JsExpr::Lit(Literal::Int(n as i64))],
                        }),
                    });
                },
                None => {},
            }
            Ok(())
        },
    }
}

/// Bind `pattern = value`: the value is evaluated once into the fresh
/// temporary `$dstN` (N the counter, which advances), then each binding
/// reads its part of it.
pub fn lower_destructure(pattern: &Pattern, value: JsExpr, index: &Vec<(String, usize)>, out: &mut Vec<JsExpr>,
    fresh: &mut u64) -> (r: Result<(), LowerError>)
    ensures
        r is Err <==> !pattern_ok(*pattern),
        final(out)@.len() >= old(out)@.len(),
        forall|k: int| 0 <= k < old(out)@.len() ==> final(out)@[k] == old(out)@[k],
        forall|k: int| old(out)@.len() <= k < final(out)@.len() ==> #[trigger] binds_var(final(out)@[k]),
        r is Ok ==> final(out)@.len() == old(out)@.len() + 1 + pattern_count(*pattern),
        final(out)@.len() > old(out)@.len() ==> (final(out)@[old(out)@.len() as int] matches JsExpr::Assign {
            value: v, .. } && *v == value),
    decreases pattern, 9nat,
{
    let n = *fresh;
    *fresh = n.wrapping_add(1);
    let mut name: Vec<char> = Vec::new();
    push_str(&mut name, "$dst");
    let d = decimal_chars_u64(n);
    crate::text::append_chars(&mut name, d.as_slice());
    let tmp = string_from_chars(&name);
    out.push(JsExpr::Assign { target: Box::new(JsExpr::Var(owned(tmp.as_str()))), value: Box::new(value) });
    let mut steps: Vec<Access> = Vec::new();
    lower_pattern_into(pattern, &tmp, &mut steps, index, out, fresh)
}

/// `name = (name === undefined ? dflt : name)`.
pub(crate) fn default_assign(name: &String, dflt: &Expr, index: &Vec<(String, usize)>, fresh: &mut u64)
    -> (r: Result<JsExpr, LowerError>)
    ensures
        r is Err <==> !lowerable(*dflt),
    decreases dflt, 11nat,
{
    let d = lower_expr(dflt, index, fresh)?;
    Ok(JsExpr::Assign {
        target: Box::new(JsExpr::Var(owned(name.as_str()))),
        value: Box::new(JsExpr::If {
            cond: Box::new(JsExpr::Bin {
                op: JsBinOp::StrictEq,
                left: Box::new(JsExpr::Var(owned(name.as_str()))),
                right: Box::new(JsExpr::Lit(Literal::Undefined)),
            }),
            then: Box::new(d),
            else_: Box::new(JsExpr::Var(owned(name.as_str()))),
        }),
    })
}

/// The parameter names of a function (`$pN` for the N-th parameter when it
/// is a pattern) and the statements that bind its defaults and patterns.
#[verifier::loop_isolation(false)]
pub(crate) fn lower_params(params: &Vec<Param>, index: &Vec<(String, usize)>, what: &str, fresh: &mut u64)
    -> (r: Result<(Vec<String>, Vec<JsExpr>), LowerError>)
    ensures
        r is Err <==> !params_ok(params@),
        r matches Ok(x) ==> x.0@.len() == params@.len() && x.1@.len() == binds_count(params@),
    decreases params@, 9nat,
{
    let mut names: Vec<String> = Vec::new();
    let mut prepend: Vec<JsExpr> = Vec::new();
    let n = params.len();
    assert(params@.take(0) =~= Seq::<Param>::empty());
    for i in 0..n
        invariant
            n == params@.len(),
            names@.len() == i,
            prepend@.len() == binds_count(params@.take(i as int)),
            forall|j: int| 0 <= j < i ==> #[trigger] param_ok(params@[j]),
    {
        let p = &params[i];
        proof {
            assert(params@.take(i + 1).drop_last() =~= params@.take(i as int));
            assert(params@.take(i + 1).last() == params@[i as int]);
            assert(decreases_to!(params@ => params@[i as int]));
        }
        if p.rest {
            proof {
                if params_ok(params@) {
                    lemma_params_ok(params@, i as int);
                }
            }
            return Err(unsupported("rest parameter in ", what, " (pass explicit arguments instead)"));
        }
        match &p.pattern {
            Pattern::Name { name, default: nd } => {
                names.push(owned(name.as_str()));
                let eff: Option<&Expr> = match &p.default {
                    Some(d) => Some(d),
                    None => match nd {
                        Some(d) => Some(d),
                        None => None,
                    },
                };
                match eff {
                    Some(d) => {
                        let a = match default_assign(name, d, index, fresh) {
                            Ok(a) => a,
                            Err(e) => {
                                proof {
                                    if params_ok(params@) {
                                        lemma_params_ok(params@, i as int);
                                    }
                                }
                                return Err(e);
                            },
                        };
                        prepend.push(a);
                    },
                    None => {},
                }
            },
            _ => {
                if p.default.is_some() {
                    proof {
                        if params_ok(params@) {
                            lemma_params_ok(params@, i as int);
                        }
                    }
                    return Err(unsupported("default on a destructuring pattern in ", what,
                        " (destructure first, then default)"));
                }
                let mut synth: Vec<char> = Vec::new();
                push_str(&mut synth, "$p");
                let d = crate::text::decimal_chars(i);
                crate::text::append_chars(&mut synth, d.as_slice());
                let sname = string_from_chars(&synth);
                names.push(owned(sname.as_str()));
                let mut steps: Vec<Access> = Vec::new();
                let res = lower_pattern_into(&p.pattern, &sname, &mut steps, index, &mut prepend, fresh);
                if res.is_err() {
                    proof {
                        if params_ok(params@) {
                            lemma_params_ok(params@, i as int);
                        }
                    }
                    return Err(res.unwrap_err());
                }
            },
        }
    }
    assert(params@.take(n as int) =~= params@);
    proof { lemma_params_ok_all(params@); }
    Ok((names, prepend))
}

// ---------------------------------------------------------------------------
// Statements.

/// Lower one statement of a function body, appending its IR to `out`.
#[verifier::spinoff_prover]
#[verifier::rlimit(100)]
pub fn lower_stmt(st: &Stmt, fn_name: &str, index: &Vec<(String, usize)>, out: &mut Vec<JsExpr>, fresh: &mut u64)
    -> (r: Result<(), LowerError>)
    ensures
        r is Err <==> !stmt_ok(*st),
        r is Ok ==> final(out)@.len() >= old(out)@.len() && final(out)@.take(old(out)@.len() as int) == old(out)@
            && stmt_emits(*st, final(out)@.skip(old(out)@.len() as int)),
    decreases st, 9nat,
{
    let ghost o = out@;
    match st {
        Stmt::Let { name, value } => {
            let v = lower_expr(value, index, fresh)?;
            out.push(JsExpr::Assign { target: Box::new(JsExpr::Var(owned(name.as_str()))), value: Box::new(v) });
        },
        Stmt::Const { name, value } => {
            let v = lower_expr(value, index, fresh)?;
            out.push(JsExpr::Assign { target: Box::new(JsExpr::Var(owned(name.as_str()))), value: Box::new(v) });
        },
        Stmt::Destructure { pattern, value, .. } => {
            let v = lower_expr(value, index, fresh)?;
            let ghost vv = v;
            lower_destructure(pattern, v, index, out, fresh)?;
            assert(out@.take(o.len() as int) =~= o);
            assert(out@.skip(o.len() as int).len() == emit_count(*st));
            assert(out@.skip(o.len() as int)[0] == out@[o.len() as int]);
            assert forall|k: int| 0 <= k < out@.skip(o.len() as int).len() implies #[trigger] binds_var(
                out@.skip(o.len() as int)[k]) by {
                assert(out@.skip(o.len() as int)[k] == out@[o.len() + k]);
            }
            return Ok(());
        },
        Stmt::Return(x) => {
            let v = lower_expr(x, index, fresh)?;
            out.push(JsExpr::Return(Some(Box::new(v))));
        },
        Stmt::Expr(x) => {
            let v = lower_expr(x, index, fresh)?;
            out.push(v);
        },
        Stmt::If { cond, then, else_ } => {
            let mut then_out: Vec<JsExpr> = Vec::new();
            lower_stmts(then, fn_name, index, &mut then_out, fresh)?;
            assert(then_out@.skip(0) =~= then_out@);
            let mut else_out: Vec<JsExpr> = Vec::new();
            match else_ {
                Some(ss) => {
                    lower_stmts(ss, fn_name, index, &mut else_out, fresh)?;
                    assert(else_out@.skip(0) =~= else_out@);
                },
                None => {
                    else_out.push(JsExpr::Lit(Literal::Null));
                    assert(else_out@ =~= seq![JsExpr::Lit(Literal::Null)]);
                },
            }
            let c = lower_expr(cond, index, fresh)?;
            out.push(JsExpr::If {
                cond: Box::new(c),
                then: Box::new(JsExpr::Block(then_out)),
                else_: Box::new(JsExpr::Block(else_out)),
            });
        },
        Stmt::While { cond, body } => {
            let mut body_out: Vec<JsExpr> = Vec::new();
            lower_stmts(body, fn_name, index, &mut body_out, fresh)?;
            assert(body_out@.skip(0) =~= body_out@);
            let c = lower_expr(cond, index, fresh)?;
            out.push(JsExpr::While { cond: Box::new(c), body: Box::new(JsExpr::Block(body_out)), step: None });
        },
        Stmt::For { init, cond, update, body } => {
            match init {
                Some(i) => {
                    lower_stmt(i, fn_name, index, out, fresh)?;
                },
                None => {},
            }
            let ghost mid = out@;
            assert(mid.take(o.len() as int) =~= o);
            let mut body_out: Vec<JsExpr> = Vec::new();
            lower_stmts(body, fn_name, index, &mut body_out, fresh)?;
            assert(body_out@.skip(0) =~= body_out@);
            let cond_e = match cond {
                Some(c) => lower_expr(c, index, fresh)?,
                None => JsExpr::Lit(Literal::Bool(true)),
            };
            let step = match update {
                Some(u) => Some(Box::new(lower_expr(u, index, fresh)?)),
                None => None,
            };
            out.push(JsExpr::While { cond: Box::new(cond_e), body: Box::new(JsExpr::Block(body_out)), step });
            proof {
                let t = out@.skip(o.len() as int);
                assert(out@.take(o.len() as int) =~= o);
                assert(t.take(t.len() - 1) =~= mid.skip(o.len() as int));
                assert(t[t.len() - 1] == out@.last());
            }
            return Ok(());
        },
        Stmt::Switch { disc, cases } => {
            let (lowered, default) = lower_cases(cases, fn_name, index, fresh)?;
            let d = lower_expr(disc, index, fresh)?;
            out.push(JsExpr::Switch { disc: Box::new(d), cases: lowered, default });
        },
        Stmt::Break => out.push(JsExpr::Break),
        Stmt::Continue => out.push(JsExpr::Continue),
    }
    assert(out@.take(o.len() as int) =~= o);
    assert(out@.skip(o.len() as int) =~= seq![out@.last()]);
    Ok(())
}

/// Lower a list of statements in order, appending to `out`.
#[verifier::loop_isolation(false)]
pub fn lower_stmts(v: &Vec<Stmt>, fn_name: &str, index: &Vec<(String, usize)>, out: &mut Vec<JsExpr>,
    fresh: &mut u64) -> (r: Result<(), LowerError>)
    ensures
        r is Err <==> !stmts_ok(v@),
        r is Ok ==> final(out)@.len() >= old(out)@.len() && final(out)@.take(old(out)@.len() as int) == old(out)@
            && stmts_emit(v@, final(out)@.skip(old(out)@.len() as int)),
    decreases v@, 9nat,
{
    let n = v.len();
    let mut i: usize = 0;
    let ghost o = out@;
    assert(out@.skip(o.len() as int) =~= Seq::<JsExpr>::empty());
    assert(out@.take(o.len() as int) =~= o);
    while i < n
        invariant
            n == v@.len(),
            i <= n,
            o == old(out)@,
            forall|j: int| 0 <= j < i ==> #[trigger] stmt_ok(v@[j]),
            out@.len() >= o.len(),
            out@.take(o.len() as int) == o,
            stmts_emit(v@.take(i as int), out@.skip(o.len() as int)),
        decreases n - i,
    {
        assert(decreases_to!(v@ => v@[i as int]));
        let ghost mid = out@;
        let res = lower_stmt(&v[i], fn_name, index, out, fresh);
        proof {
            if res is Ok {
                let s2 = v@.take(i + 1);
                let t = out@.skip(o.len() as int);
                let c = emit_count(v@[i as int]);
                assert(s2.drop_last() =~= v@.take(i as int));
                assert(s2.last() == v@[i as int]);
                assert(t.take(t.len() - c) =~= mid.skip(o.len() as int));
                assert(t.skip(t.len() - c) =~= out@.skip(mid.len() as int));
                assert(out@.take(o.len() as int) =~= o);
            }
        }
        if res.is_err() {
            proof {
                if stmts_ok(v@) {
                    lemma_stmts_ok(v@, i as int);
                }
            }
            return res;
        }
        i = i + 1;
    }
    proof { lemma_stmts_ok_all(v@); }
    assert(v@.take(n as int) =~= v@);
    Ok(())
}

/// The cases of a `switch` with a test, in order, and the body of its
/// default case (the last one, when there are several).
#[verifier::loop_isolation(false)]
fn lower_cases(cases: &Vec<(Option<Expr>, Vec<Stmt>)>, fn_name: &str, index: &Vec<(String, usize)>,
    fresh: &mut u64) -> (r: Result<(Vec<SwitchCase>, Option<Vec<JsExpr>>), LowerError>)
    ensures
        r is Err <==> !cases_ok(cases@),
        r matches Ok(x) ==> switch_cases_emit(cases@, x.0@) && default_emit(cases@, x.1),
    decreases cases@, 9nat,
{
    let mut lowered: Vec<SwitchCase> = Vec::new();
    let mut default: Option<Vec<JsExpr>> = None;
    let n = cases.len();
    for i in 0..n
        invariant
            n == cases@.len(),
            forall|j: int| 0 <= j < i ==> #[trigger] case_ok(cases@[j]),
            switch_cases_emit(cases@.take(i as int), lowered@),
            default_emit(cases@.take(i as int), default),
    {
        assert(decreases_to!(cases@ => cases@[i as int]));
        let c = &cases[i];
        assert(cases@.take(i + 1).drop_last() =~= cases@.take(i as int));
        assert(cases@.take(i + 1).last() == cases@[i as int]);
        let mut body_out: Vec<JsExpr> = Vec::new();
        let res = lower_stmts(&c.1, fn_name, index, &mut body_out, fresh);
        assert(res is Ok ==> body_out@.skip(0) =~= body_out@);
        if res.is_err() {
            proof {
                if cases_ok(cases@) {
                    lemma_cases_ok(cases@, i as int);
                }
            }
            return Err(res.unwrap_err());
        }
        match &c.0 {
            Some(t) => {
                let tl = match lower_expr(t, index, fresh) {
                    Ok(x) => x,
                    Err(e) => {
                        proof {
                            if cases_ok(cases@) {
                                lemma_cases_ok(cases@, i as int);
                            }
                        }
                        return Err(e);
                    },
                };
                let ghost before = lowered@;
                lowered.push(SwitchCase { test: tl, body: body_out });
                assert(lowered@.drop_last() =~= before);
            },
            None => {
                default = Some(body_out);
            },
        }
    }
    proof { lemma_cases_ok_all(cases@); }
    assert(cases@.take(n as int) =~= cases@);
    Ok((lowered, default))
}

// ---------------------------------------------------------------------------
// Async bodies.

/// Split an async arrow's body at each `await` (or `yield`) statement into
/// segments; the last segment completes the function.
#[verifier::loop_isolation(false)]
fn lower_async_segments(body: &Expr, index: &Vec<(String, usize)>, fresh: &mut u64)
    -> (r: Result<Vec<JsAsyncSegment>, LowerError>)
    ensures
        r is Err <==> !segments_ok(*body),
    decreases body, 13nat,
{
    let mut segs: Vec<JsAsyncSegment> = Vec::new();
    let mut cur: Vec<JsExpr> = Vec::new();
    match body {
        Expr::Block(ss) => {
            let n = ss.len();
            for i in 0..n
                invariant
                    n == ss@.len(),
                    forall|j: int| 0 <= j < i ==> #[trigger] segment_ok(ss@[j]),
            {
                assert(decreases_to!(*body => ss@[i as int]));
                let res = lower_segment(&ss[i], &mut cur, &mut segs, index, fresh);
                if res.is_err() {
                    proof {
                        if segments_list_ok(ss@) {
                            lemma_segments_list_ok(ss@, i as int);
                        }
                    }
                    return Err(res.unwrap_err());
                }
            }
            proof { lemma_segments_list_ok_all(ss@); }
        },
        _ => {
            lower_segment(body, &mut cur, &mut segs, index, fresh)?;
        },
    }
    segs.push(JsAsyncSegment { stmts: cur, await_expr: None, await_bind: None, await_completes: false });
    Ok(segs)
}

/// The statements collected so far, leaving `cur` empty.
pub(crate) fn take_stmts(cur: &mut Vec<JsExpr>) -> (r: Vec<JsExpr>) {
    let mut taken: Vec<JsExpr> = Vec::new();
    std::mem::swap(&mut taken, cur);
    taken
}

/// One statement of an async body: a suspension closes the current segment,
/// any other statement joins it.
pub(crate) fn lower_segment(e: &Expr, cur: &mut Vec<JsExpr>, segs: &mut Vec<JsAsyncSegment>, index: &Vec<(String, usize)>,
    fresh: &mut u64) -> (r: Result<(), LowerError>)
    ensures
        r is Err <==> !segment_ok(*e),
    decreases e, 12nat,
{
    match e {
        Expr::Assign { target, value } => {
            match &**value {
                Expr::Await { value: v, .. } => {
                    let bind = match &**target {
                        Expr::Ident { name, .. } => owned(name.as_str()),
                        _ => {
                            return Err(LowerError::UnsupportedAwait(owned(
                                "await target must be a plain binding (x = await v), not a member write")));
                        },
                    };
                    let taken = take_stmts(cur);
                    let x = lower_expr(v, index, fresh)?;
                    segs.push(JsAsyncSegment {
                        stmts: taken,
                        await_expr: Some(Box::new(x)),
                        await_bind: Some(bind),
                        await_completes: false,
                    });
                    Ok(())
                },
                Expr::Yield { value: v, .. } => {
                    let bind = match &**target {
                        Expr::Ident { name, .. } => owned(name.as_str()),
                        _ => {
                            return Err(LowerError::UnsupportedAwait(owned(
                                "await target must be a plain binding (x = await v), not a member write")));
                        },
                    };
                    let taken = take_stmts(cur);
                    let x = match v {
                        Some(y) => lower_expr(y, index, fresh)?,
                        None => JsExpr::Lit(Literal::Undefined),
                    };
                    segs.push(JsAsyncSegment {
                        stmts: taken,
                        await_expr: Some(Box::new(x)),
                        await_bind: Some(bind),
                        await_completes: false,
                    });
                    Ok(())
                },
                _ => lower_plain_segment(e, cur, index, fresh),
            }
        },
        Expr::Await { value, from_return } => {
            let taken = take_stmts(cur);
            let x = lower_expr(value, index, fresh)?;
            segs.push(JsAsyncSegment {
                stmts: taken,
                await_expr: Some(Box::new(x)),
                await_bind: None,
                await_completes: *from_return,
            });
            Ok(())
        },
        Expr::Yield { value, from_return } => {
            let x = match value {
                Some(y) => lower_expr(y, index, fresh)?,
                None => JsExpr::Lit(Literal::Undefined),
            };
            let taken = take_stmts(cur);
            segs.push(JsAsyncSegment {
                stmts: taken,
                await_expr: Some(Box::new(x)),
                await_bind: None,
                await_completes: *from_return,
            });
            Ok(())
        },
        _ => lower_plain_segment(e, cur, index, fresh),
    }
}

/// A statement of an async body without a suspension of its own.
fn lower_plain_segment(e: &Expr, cur: &mut Vec<JsExpr>, index: &Vec<(String, usize)>, fresh: &mut u64)
    -> (r: Result<(), LowerError>)
    ensures
        r is Err <==> (suspends(*e) || !lowerable(*e)),
    decreases e, 11nat,
{
    if contains_await(e) {
        return Err(LowerError::UnsupportedAwait(owned(
            "await is only supported as a statement value: let x = await v; | x = await v; | await v; | return await v;")));
    }
    let x = lower_expr(e, index, fresh)?;
    cur.push(x);
    Ok(())
}

// ---------------------------------------------------------------------------
// Expressions.

/// Lower an expression to the JS IR. `index` (component names to table
/// slots) is handed through to the parts that render elements; `fresh`
/// numbers the destructuring temporaries and advances by one for each.
pub fn lower_expr(expr: &Expr, index: &Vec<(String, usize)>, fresh: &mut u64) -> (r: Result<JsExpr, LowerError>)
    ensures
        r is Err <==> !lowerable(*expr),
        r matches Ok(j) ==> lowered(*expr, j),
    decreases expr, 10nat,
{
    match expr {
        Expr::Literal(l) => Ok(JsExpr::Lit(l.duplicate())),
        Expr::Ident { name, .. } => {
            if str_eq(name.as_str(), "undefined") {
                Ok(JsExpr::Lit(Literal::Undefined))
            } else {
                Ok(JsExpr::Var(owned(name.as_str())))
            }
        },
        Expr::Member { base, prop } => {
            let b = lower_expr(base, index, fresh)?;
            Ok(JsExpr::Get { base: Box::new(b), prop: owned(prop.as_str()) })
        },
        Expr::Binary { op, left, right } => {
            let l = lower_expr(left, index, fresh)?;
            let r = lower_expr(right, index, fresh)?;
            Ok(JsExpr::Bin { op: lower_binop(*op), left: Box::new(l), right: Box::new(r) })
        },
        Expr::Unary { op, expr: x } => {
            let v = lower_expr(x, index, fresh)?;
            Ok(JsExpr::Un { op: lower_unop(*op), expr: Box::new(v) })
        },
        Expr::Call { .. } => lower_call(expr, index, fresh),
        Expr::Array(items) => {
            let v = lower_items(items, index, fresh)?;
            Ok(JsExpr::Array(v))
        },
        Expr::Object(items) => {
            let v = lower_objects(items, index, fresh)?;
            Ok(JsExpr::Object(v))
        },
        Expr::Template { parts, exprs } => {
            let r = lower_template(parts, exprs, index, fresh);
            r
        },
        Expr::Update { op, target, prefix } => {
            let t = lower_expr(target, index, fresh)?;
            let inc = match op {
                UpdateOp::Inc => true,
                UpdateOp::Dec => false,
            };
            Ok(JsExpr::Update { inc, target: Box::new(t), prefix: *prefix })
        },
        Expr::CompoundAssign { op, target, value } => {
            let t = lower_expr(target, index, fresh)?;
            let l = lower_expr(target, index, fresh)?;
            let v = lower_expr(value, index, fresh)?;
            Ok(JsExpr::Assign {
                target: Box::new(t),
                value: Box::new(JsExpr::Bin { op: lower_binop(*op), left: Box::new(l), right: Box::new(v) }),
            })
        },
        Expr::Ternary { cond, then, else_ } => {
            let c = lower_expr(cond, index, fresh)?;
            let t = lower_expr(then, index, fresh)?;
            let e = lower_expr(else_, index, fresh)?;
            Ok(JsExpr::If { cond: Box::new(c), then: Box::new(t), else_: Box::new(e) })
        },
        Expr::Arrow { .. } => lower_arrow(expr, index, fresh),
        Expr::Function { .. } => lower_function(expr, index, fresh),
        Expr::Await { .. } => Err(LowerError::UnsupportedAwait(owned("await outside an async function"))),
        Expr::Yield { .. } => Err(LowerError::UnsupportedAwait(owned("yield outside a generator function"))),
        Expr::Block(es) => {
            let v = lower_list(es, index, fresh)?;
            Ok(JsExpr::Block(v))
        },
        Expr::Assign { target, value } => {
            let t = lower_expr(target, index, fresh)?;
            let v = lower_expr(value, index, fresh)?;
            Ok(JsExpr::Assign { target: Box::new(t), value: Box::new(v) })
        },
        Expr::New { callee, args } => {
            let c = lower_expr(callee, index, fresh)?;
            let a = lower_args(args, index, fresh)?;
            Ok(JsExpr::New { callee: Box::new(c), args: a })
        },
        Expr::Throw(x) => {
            let v = lower_expr(x, index, fresh)?;
            Ok(JsExpr::Throw { value: Box::new(v) })
        },
        Expr::Return(v) => match v {
            Some(x) => {
                let y = lower_expr(x, index, fresh)?;
                Ok(JsExpr::Return(Some(Box::new(y))))
            },
            None => Ok(JsExpr::Return(None)),
        },
        Expr::While { cond, body } => {
            let c = lower_expr(cond, index, fresh)?;
            let b = lower_expr(body, index, fresh)?;
            Ok(JsExpr::While { cond: Box::new(c), body: Box::new(b), step: None })
        },
        Expr::Break => Ok(JsExpr::Break),
        Expr::Continue => Ok(JsExpr::Continue),
        Expr::Try { .. } => lower_try(expr, index, fresh),
        Expr::DynImport { specifier } => {
            let mut m: Vec<char> = Vec::new();
            push_str(&mut m, "@module:");
            push_str(&mut m, specifier.as_str());
            Ok(JsExpr::Var(string_from_chars(&m)))
        },
        Expr::Element(_) => Err(LowerError::InvalidListMap(owned("element used as a value"))),
    }
}

/// A call; `base.get(k)` with one plain argument is an index read.
fn lower_call(expr: &Expr, index: &Vec<(String, usize)>, fresh: &mut u64) -> (r: Result<JsExpr, LowerError>)
    requires
        *expr is Call,
    ensures
        r is Err <==> !lowerable(*expr),
        r matches Ok(j) ==> lowered(*expr, j),
    decreases expr, 9nat,
{
    match expr {
        Expr::Call { callee, args } => {
            match &**callee {
                Expr::Member { base, prop } => {
                    if str_eq(prop.as_str(), "get") && args.len() == 1 {
                        match &args[0] {
                            CallArg::Expr(key) => {
                                proof {
                                    assert(decreases_to!(*expr => args@[0]));
                                    assert(args@.drop_last() =~= Seq::<CallArg>::empty());
                                    assert(lowerable_args(Seq::<CallArg>::empty()));
                                    assert(args@.last() == args@[0]);
                                    assert(lowerable_args(args@) == arg_lowerable(args@[0]));
                                    assert(arg_lowerable(args@[0]) == lowerable(*key));
                                    assert(lowerable(**callee) == lowerable(**base));
                                }
                                let b = lower_expr(base, index, fresh)?;
                                let k = lower_expr(key, index, fresh)?;
                                return Ok(JsExpr::Index { base: Box::new(b), key: Box::new(k) });
                            },
                            CallArg::Spread(_) => {},
                        }
                    }
                },
                _ => {},
            }
            let c = lower_expr(callee, index, fresh)?;
            let a = lower_args(args, index, fresh)?;
            Ok(JsExpr::Call { callee: Box::new(c), args: a })
        },
        _ => Err(LowerError::Unsupported(owned("call"))),
    }
}

/// An arrow function: a closure, or an async state machine.
fn lower_arrow(expr: &Expr, index: &Vec<(String, usize)>, fresh: &mut u64) -> (r: Result<JsExpr, LowerError>)
    requires
        *expr is Arrow,
    ensures
        r is Err <==> !lowerable(*expr),
        r matches Ok(j) ==> lowered(*expr, j),
    decreases expr, 9nat,
{
    match expr {
        Expr::Arrow { params, body, async_ } => {
            let (names, prepend) = lower_params(params, index, "arrow function", fresh)?;
            if *async_ {
                if prepend.len() > 0 {
                    return Err(LowerError::Unsupported(owned(
                        "destructuring/default params on async arrows (use plain params)")));
                }
                let segs = lower_async_segments(body, index, fresh)?;
                Ok(JsExpr::AsyncFn { params: names, segments: segs })
            } else {
                let lowered = lower_expr(body, index, fresh)?;
                let b = if prepend.len() == 0 {
                    lowered
                } else {
                    let mut stmts = prepend;
                    stmts.push(lowered);
                    JsExpr::Block(stmts)
                };
                Ok(JsExpr::Closure { params: names, captures: Vec::new(), body: Box::new(b) })
            }
        },
        _ => Err(LowerError::Unsupported(owned("arrow"))),
    }
}

/// A function expression: a closure over its lowered statements.
fn lower_function(expr: &Expr, index: &Vec<(String, usize)>, fresh: &mut u64) -> (r: Result<JsExpr, LowerError>)
    requires
        *expr is Function,
    ensures
        r is Err <==> !lowerable(*expr),
        r matches Ok(j) ==> lowered(*expr, j),
    decreases expr, 9nat,
{
    match expr {
        Expr::Function { name, params, body } => {
            let label: &str = match name {
                Some(n) => n.as_str(),
                None => "anonymous function",
            };
            let (names, mut stmts) = lower_params(params, index, label, fresh)?;
            lower_stmts(body, label, index, &mut stmts, fresh)?;
            Ok(JsExpr::Closure { params: names, captures: Vec::new(), body: Box::new(JsExpr::Block(stmts)) })
        },
        _ => Err(LowerError::Unsupported(owned("function"))),
    }
}

/// A `try` expression, block by block.
fn lower_try(expr: &Expr, index: &Vec<(String, usize)>, fresh: &mut u64) -> (r: Result<JsExpr, LowerError>)
    requires
        *expr is Try,
    ensures
        r is Err <==> !lowerable(*expr),
        r matches Ok(j) ==> lowered(*expr, j),
    decreases expr, 9nat,
{
    match expr {
        Expr::Try { block, catch_param, catch, finally } => {
            let b = lower_list(block, index, fresh)?;
            let cp = match catch_param {
                Some(p) => Some(owned(p.as_str())),
                None => None,
            };
            let c = match catch {
                Some(x) => Some(lower_list(x, index, fresh)?),
                None => None,
            };
            let f = match finally {
                Some(x) => Some(lower_list(x, index, fresh)?),
                None => None,
            };
            Ok(JsExpr::Try { block: b, catch_param: cp, catch: c, finally: f })
        },
        _ => Err(LowerError::Unsupported(owned("try"))),
    }
}

/// A template: its non-empty literal parts and the interpolations after
/// them joined with `+`, left to right; an empty string when there is
/// nothing to join.
#[verifier::loop_isolation(false)]
fn lower_template(parts: &Vec<String>, exprs: &Vec<Expr>, index: &Vec<(String, usize)>, fresh: &mut u64)
    -> (r: Result<JsExpr, LowerError>)
    ensures
        r is Err <==> !lowerable_upto(exprs@, parts@.len() as int),
        r matches Ok(j) ==> template_lowered(parts@, exprs@, j),
    decreases exprs@, 9nat,
{
    let mut acc: Option<JsExpr> = None;
    let n = parts.len();
    let ghost ne = exprs@.len() as int;
    for i in 0..n
        invariant
            n == parts@.len(),
            ne == exprs@.len(),
            forall|j: int| 0 <= j < i && j < exprs@.len() ==> #[trigger] lowerable(exprs@[j]),
            acc is None <==> template_slots(parts@.take(i as int), ne).len() == 0,
            acc matches Some(a) ==> template_chain(parts@, exprs@, template_slots(parts@.take(i as int), ne),
                template_slots(parts@.take(i as int), ne).len(), a),
    {
        let ghost before = template_slots(parts@.take(i as int), ne);
        let ghost lit_slot: Seq<(bool, int)> = if parts@[i as int]@.len() > 0 {
            seq![(true, i as int)]
        } else {
            Seq::empty()
        };
        let ghost val_slot: Seq<(bool, int)> = if (i as int) < ne { seq![(false, i as int)] } else { Seq::empty() };
        assert(parts@.take(i + 1).drop_last() =~= parts@.take(i as int));
        assert(parts@.take(i + 1)[i as int] == parts@[i as int]);
        assert(template_slots(parts@.take(i + 1), ne) == before + lit_slot + val_slot);
        if parts[i].as_str().unicode_len() > 0 {
            let lit = JsExpr::Lit(Literal::String(parts[i].clone()));
            proof {
                let mid = before + lit_slot;
                assert(mid[before.len() as int] == (true, i as int));
                assert(template_piece(parts@, exprs@, (true, i as int), lit));
                if acc is Some {
                    lemma_template_chain_extend(parts@, exprs@, before, lit_slot, before.len(), acc->Some_0);
                }
            }
            acc = Some(match acc {
                None => lit,
                Some(prev) => JsExpr::Bin { op: JsBinOp::Add, left: Box::new(prev), right: Box::new(lit) },
            });
            assert(template_chain(parts@, exprs@, before + lit_slot, (before + lit_slot).len(), acc->Some_0));
        } else {
            assert(before + lit_slot =~= before);
        }
        assert(acc is None <==> (before + lit_slot).len() == 0);
        if i < exprs.len() {
            assert(decreases_to!(exprs@ => exprs@[i as int]));
            let e = match lower_expr(&exprs[i], index, fresh) {
                Ok(y) => y,
                Err(z) => {
                    proof {
                        if lowerable_upto(exprs@, n as int) {
                            lemma_lowerable_upto(exprs@, n as int, i as int);
                        }
                    }
                    return Err(z);
                },
            };
            proof {
                let mid = before + lit_slot;
                assert((mid + val_slot)[mid.len() as int] == (false, i as int));
                assert(template_piece(parts@, exprs@, (false, i as int), e));
                if acc is Some {
                    lemma_template_chain_extend(parts@, exprs@, mid, val_slot, mid.len(), acc->Some_0);
                }
            }
            acc = Some(match acc {
                None => e,
                Some(prev) => JsExpr::Bin { op: JsBinOp::Add, left: Box::new(prev), right: Box::new(e) },
            });
            assert(template_chain(parts@, exprs@, before + lit_slot + val_slot, (before + lit_slot + val_slot).len(),
                acc->Some_0));
        } else {
            assert(before + lit_slot + val_slot =~= before + lit_slot);
        }
    }
    proof { lemma_lowerable_upto_all(exprs@, n as int); }
    assert(parts@.take(n as int) =~= parts@);
    let res = match acc {
        Some(x) => x,
        None => JsExpr::Lit(Literal::String(owned(""))),
    };
    proof {
        reveal_strlit("");
        assert(template_lowered(parts@, exprs@, res));
    }
    Ok(res)
}

/// Lower a list of expressions in order.
#[verifier::loop_isolation(false)]
pub fn lower_list(v: &Vec<Expr>, index: &Vec<(String, usize)>, fresh: &mut u64) -> (r: Result<Vec<JsExpr>, LowerError>)
    ensures
        r is Err <==> !lowerable_list(v@),
        r matches Ok(w) ==> lowered_list(v@, w@),
        r matches Ok(w) ==> w@.len() == v@.len(),
    decreases v@, 9nat,
{
    let mut out: Vec<JsExpr> = Vec::new();
    let n = v.len();
    assert(v@.take(0) =~= Seq::<Expr>::empty());
    for i in 0..n
        invariant
            n == v@.len(),
            out@.len() == i,
            forall|j: int| 0 <= j < i ==> #[trigger] lowerable(v@[j]),
            lowered_list(v@.take(i as int), out@),
    {
        assert(decreases_to!(v@ => v@[i as int]));
        let x = match lower_expr(&v[i], index, fresh) {
            Ok(y) => y,
            Err(z) => {
                proof {
                    if lowerable_list(v@) {
                        lemma_lowerable_list(v@, i as int);
                    }
                }
                return Err(z);
            },
        };
        let ghost before = out@;
        out.push(x);
        proof {
            let t = v@.take(i + 1);
            assert(t.drop_last() =~= v@.take(i as int));
            assert(t.last() == v@[i as int]);
            assert(out@.drop_last() =~= before);
        }
    }
    assert(v@.take(n as int) =~= v@);
    proof { lemma_lowerable_list_all(v@); }
    Ok(out)
}

/// Lower call arguments in order; a spread argument stays a spread.
#[verifier::loop_isolation(false)]
fn lower_args(v: &Vec<CallArg>, index: &Vec<(String, usize)>, fresh: &mut u64) -> (r: Result<Vec<JsExpr>, LowerError>)
    ensures
        r is Err <==> !lowerable_args(v@),
        r matches Ok(w) ==> lowered_args(v@, w@),
    decreases v@, 9nat,
{
    let mut out: Vec<JsExpr> = Vec::new();
    let n = v.len();
    assert(v@.take(0) =~= Seq::<CallArg>::empty());
    for i in 0..n
        invariant
            n == v@.len(),
            forall|j: int| 0 <= j < i ==> #[trigger] arg_lowerable(v@[j]),
            lowered_args(v@.take(i as int), out@),
    {
        assert(decreases_to!(v@ => v@[i as int]));
        let x = match &v[i] {
            CallArg::Expr(e) => lower_expr(e, index, fresh),
            CallArg::Spread(e) => match lower_expr(e, index, fresh) {
                Ok(y) => Ok(JsExpr::SpreadArg(Box::new(y))),
                Err(z) => Err(z),
            },
        };
        let x = match x {
            Ok(y) => y,
            Err(z) => {
                proof {
                    if lowerable_args(v@) {
                        lemma_lowerable_args(v@, i as int);
                    }
                }
                return Err(z);
            },
        };
        let ghost before = out@;
        out.push(x);
        proof {
            let t = v@.take(i + 1);
            assert(t.drop_last() =~= v@.take(i as int));
            assert(t.last() == v@[i as int]);
            assert(out@.drop_last() =~= before);
        }
    }
    assert(v@.take(n as int) =~= v@);
    proof { lemma_lowerable_args_all(v@); }
    Ok(out)
}

/// Lower array items in order.
#[verifier::loop_isolation(false)]
fn lower_items(v: &Vec<ArrayItem>, index: &Vec<(String, usize)>, fresh: &mut u64)
    -> (r: Result<Vec<JsArrayItem>, LowerError>)
    ensures
        r is Err <==> !lowerable_items(v@),
        r matches Ok(w) ==> lowered_items(v@, w@),
    decreases v@, 9nat,
{
    let mut out: Vec<JsArrayItem> = Vec::new();
    let n = v.len();
    assert(v@.take(0) =~= Seq::<ArrayItem>::empty());
    for i in 0..n
        invariant
            n == v@.len(),
            forall|j: int| 0 <= j < i ==> #[trigger] item_lowerable(v@[j]),
            lowered_items(v@.take(i as int), out@),
    {
        assert(decreases_to!(v@ => v@[i as int]));
        let x = match &v[i] {
            ArrayItem::Expr(e) => match lower_expr(e, index, fresh) {
                Ok(y) => Ok(JsArrayItem::Expr(y)),
                Err(z) => Err(z),
            },
            ArrayItem::Spread(e) => match lower_expr(e, index, fresh) {
                Ok(y) => Ok(JsArrayItem::Spread(y)),
                Err(z) => Err(z),
            },
        };
        let x = match x {
            Ok(y) => y,
            Err(z) => {
                proof {
                    if lowerable_items(v@) {
                        lemma_lowerable_items(v@, i as int);
                    }
                }
                return Err(z);
            },
        };
        let ghost before = out@;
        out.push(x);
        proof {
            let t = v@.take(i + 1);
            assert(t.drop_last() =~= v@.take(i as int));
            assert(t.last() == v@[i as int]);
            assert(out@.drop_last() =~= before);
        }
    }
    assert(v@.take(n as int) =~= v@);
    proof { lemma_lowerable_items_all(v@); }
    Ok(out)
}

/// Lower object items in order.
#[verifier::loop_isolation(false)]
fn lower_objects(v: &Vec<ObjectItem>, index: &Vec<(String, usize)>, fresh: &mut u64)
    -> (r: Result<Vec<JsObjectItem>, LowerError>)
    ensures
        r is Err <==> !lowerable_objects(v@),
        r matches Ok(w) ==> lowered_objects(v@, w@),
    decreases v@, 9nat,
{
    let mut out: Vec<JsObjectItem> = Vec::new();
    let n = v.len();
    assert(v@.take(0) =~= Seq::<ObjectItem>::empty());
    for i in 0..n
        invariant
            n == v@.len(),
            forall|j: int| 0 <= j < i ==> #[trigger] object_lowerable(v@[j]),
            lowered_objects(v@.take(i as int), out@),
    {
        assert(decreases_to!(v@ => v@[i as int]));
        let x = match &v[i] {
            ObjectItem::Shorthand(name) => Ok(JsObjectItem::Shorthand(owned(name.as_str()))),
            ObjectItem::Prop(k, e) => match lower_expr(e, index, fresh) {
                Ok(y) => Ok(JsObjectItem::Prop(owned(k.as_str()), y)),
                Err(z) => Err(z),
            },
            ObjectItem::Spread(e) => match lower_expr(e, index, fresh) {
                Ok(y) => Ok(JsObjectItem::Spread(y)),
                Err(z) => Err(z),
            },
        };
        let x = match x {
            Ok(y) => y,
            Err(z) => {
                proof {
                    if lowerable_objects(v@) {
                        lemma_lowerable_objects(v@, i as int);
                    }
                }
                return Err(z);
            },
        };
        let ghost before = out@;
        out.push(x);
        proof {
            let t = v@.take(i + 1);
            assert(t.drop_last() =~= v@.take(i as int));
            assert(t.last() == v@[i as int]);
            assert(out@.drop_last() =~= before);
        }
    }
    assert(v@.take(n as int) =~= v@);
    proof { lemma_lowerable_objects_all(v@); }
    Ok(out)
}

} // verus!

