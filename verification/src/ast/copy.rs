//! Deep copies of AST values (the parser duplicates an assignment target and
//! a `switch` discriminant). A copy keeps every structural invariant of the
//! original and its variant.

use vstd::prelude::*;
use crate::ast::expr::{ArrayItem, CallArg, Element, Expr, ObjectItem, Prop};
use crate::ast::lit::Literal;
use crate::ast::program::{ObjectProp, Param, Pattern, Stmt};
use crate::ast::wf::{
    assignable, plain, wf_array_item, wf_array_items, wf_call_arg, wf_call_args, wf_case,
    wf_cases, wf_element, wf_expr, wf_exprs, wf_object_item, wf_object_items, wf_object_prop,
    wf_object_props, wf_param, wf_params, wf_pattern, wf_pattern_item, wf_pattern_items, wf_prop,
    wf_props, wf_stmt, wf_stmts,
};

verus! {

/// `a` and `b` are expressions of the same kind (the same variant).
pub open spec fn same_kind(a: Expr, b: Expr) -> bool {
    &&& (a is Literal <==> b is Literal)
    &&& (a is Ident <==> b is Ident)
    &&& (a is Member <==> b is Member)
    &&& (a is Binary <==> b is Binary)
    &&& (a is Unary <==> b is Unary)
    &&& (a is Call <==> b is Call)
    &&& (a is New <==> b is New)
    &&& (a is Assign <==> b is Assign)
    &&& (a is Element <==> b is Element)
    &&& (a is Ternary <==> b is Ternary)
    &&& (a is Array <==> b is Array)
    &&& (a is Object <==> b is Object)
    &&& (a is Template <==> b is Template)
    &&& (a is Update <==> b is Update)
    &&& (a is CompoundAssign <==> b is CompoundAssign)
    &&& (a is Arrow <==> b is Arrow)
    &&& (a is Function <==> b is Function)
    &&& (a is Return <==> b is Return)
    &&& (a is Yield <==> b is Yield)
    &&& (a is Await <==> b is Await)
    &&& (a is DynImport <==> b is DynImport)
    &&& (a is Block <==> b is Block)
    &&& (a is Throw <==> b is Throw)
    &&& (a is While <==> b is While)
    &&& (a is Break <==> b is Break)
    &&& (a is Continue <==> b is Continue)
    &&& (a is Try <==> b is Try)
}

impl Literal {
    /// An equal copy.
    pub fn duplicate(&self) -> (r: Literal)
        ensures r == *self,
    {
        match self {
            Literal::Int(i) => Literal::Int(*i),
            Literal::Float(x) => Literal::Float(x.clone()),
            Literal::String(x) => Literal::String(x.clone()),
            Literal::Bool(b) => Literal::Bool(*b),
            Literal::Null => Literal::Null,
            Literal::Undefined => Literal::Undefined,
        }
    }
}

fn copy_string_opt(s: &Option<String>) -> (r: Option<String>)
    ensures r == *s,
{
    match s {
        Some(x) => Some(x.clone()),
        None => None,
    }
}

fn copy_strings(v: &Vec<String>) -> (r: Vec<String>)
    ensures r@ == v@,
{
    let mut out: Vec<String> = Vec::new();
    for i in 0..v.len()
        invariant out@ == v@.take(i as int),
    {
        out.push(v[i].clone());
        assert(out@ =~= v@.take(i + 1));
    }
    assert(v@.take(v@.len() as int) =~= v@);
    out
}

fn copy_boxed_opt(v: &Option<Box<Expr>>) -> (r: Option<Box<Expr>>)
    ensures
        r is Some == v is Some,
        r is Some ==> wf_expr(*r->0) == wf_expr(*v->0),
    decreases v, 1nat,
{
    match v {
        Some(e) => Some(Box::new(e.duplicate())),
        None => None,
    }
}

fn copy_expr_opt(v: &Option<Expr>) -> (r: Option<Expr>)
    ensures
        r is Some == v is Some,
        r is Some ==> wf_expr(r->0) == wf_expr(v->0),
    decreases v, 1nat,
{
    match v {
        Some(e) => Some(e.duplicate()),
        None => None,
    }
}

impl Expr {
    /// A deep copy.
    pub fn duplicate(&self) -> (r: Expr)
        ensures
            wf_expr(r) == wf_expr(*self),
            assignable(r) == assignable(*self),
            same_kind(r, *self),
            (*self is Literal || *self is Ident || *self is DynImport || *self is Break || *self is Continue)
                ==> r == *self,
        decreases self, 0nat,
    {
        match self {
            Expr::Literal(l) => Expr::Literal(l.duplicate()),
            Expr::Ident { name, is_component } => Expr::Ident { name: name.clone(), is_component: *is_component },
            Expr::Member { base, prop } => Expr::Member { base: Box::new(base.duplicate()), prop: prop.clone() },
            Expr::Binary { op, left, right } => Expr::Binary {
                op: *op,
                left: Box::new(left.duplicate()),
                right: Box::new(right.duplicate()),
            },
            Expr::Unary { op, expr } => Expr::Unary { op: *op, expr: Box::new(expr.duplicate()) },
            Expr::Call { callee, args } => Expr::Call {
                callee: Box::new(callee.duplicate()),
                args: copy_call_args(args),
            },
            Expr::New { callee, args } => Expr::New {
                callee: Box::new(callee.duplicate()),
                args: copy_call_args(args),
            },
            Expr::Assign { target, value } => Expr::Assign {
                target: Box::new(target.duplicate()),
                value: Box::new(value.duplicate()),
            },
            Expr::Element(e) => Expr::Element(e.duplicate()),
            Expr::Ternary { cond, then, else_ } => Expr::Ternary {
                cond: Box::new(cond.duplicate()),
                then: Box::new(then.duplicate()),
                else_: Box::new(else_.duplicate()),
            },
            Expr::Array(items) => Expr::Array(copy_array_items(items)),
            Expr::Object(items) => Expr::Object(copy_object_items(items)),
            Expr::Template { parts, exprs } => Expr::Template {
                parts: copy_strings(parts),
                exprs: copy_exprs(exprs),
            },
            Expr::Update { op, target, prefix } => Expr::Update {
                op: *op,
                target: Box::new(target.duplicate()),
                prefix: *prefix,
            },
            Expr::CompoundAssign { op, target, value } => Expr::CompoundAssign {
                op: *op,
                target: Box::new(target.duplicate()),
                value: Box::new(value.duplicate()),
            },
            Expr::Arrow { params, body, async_ } => Expr::Arrow {
                params: copy_params(params),
                body: Box::new(body.duplicate()),
                async_: *async_,
            },
            Expr::Function { name, params, body } => Expr::Function {
                name: copy_string_opt(name),
                params: copy_params(params),
                body: copy_stmts(body),
            },
            Expr::Return(v) => Expr::Return(copy_boxed_opt(v)),
            Expr::Yield { value, from_return } => Expr::Yield {
                value: copy_boxed_opt(value),
                from_return: *from_return,
            },
            Expr::Await { value, from_return } => Expr::Await {
                value: Box::new(value.duplicate()),
                from_return: *from_return,
            },
            Expr::DynImport { specifier } => Expr::DynImport { specifier: specifier.clone() },
            Expr::Block(es) => Expr::Block(copy_exprs(es)),
            Expr::Throw(e) => Expr::Throw(Box::new(e.duplicate())),
            Expr::While { cond, body } => Expr::While {
                cond: Box::new(cond.duplicate()),
                body: Box::new(body.duplicate()),
            },
            Expr::Break => Expr::Break,
            Expr::Continue => Expr::Continue,
            Expr::Try { block, catch_param, catch, finally } => Expr::Try {
                block: copy_exprs(block),
                catch_param: copy_string_opt(catch_param),
                catch: match catch {
                    Some(c) => Some(copy_exprs(c)),
                    None => None,
                },
                finally: match finally {
                    Some(f) => Some(copy_exprs(f)),
                    None => None,
                },
            },
        }
    }
}

fn copy_call_arg(a: &CallArg) -> (r: CallArg)
    ensures wf_call_arg(r) == wf_call_arg(*a),
    decreases a, 0nat,
{
    match a {
        CallArg::Expr(e) => CallArg::Expr(e.duplicate()),
        CallArg::Spread(e) => CallArg::Spread(e.duplicate()),
    }
}

fn copy_array_item(a: &ArrayItem) -> (r: ArrayItem)
    ensures wf_array_item(r) == wf_array_item(*a),
    decreases a, 0nat,
{
    match a {
        ArrayItem::Expr(e) => ArrayItem::Expr(e.duplicate()),
        ArrayItem::Spread(e) => ArrayItem::Spread(e.duplicate()),
    }
}

fn copy_object_item(a: &ObjectItem) -> (r: ObjectItem)
    ensures wf_object_item(r) == wf_object_item(*a),
    decreases a, 0nat,
{
    match a {
        ObjectItem::Shorthand(s) => ObjectItem::Shorthand(s.clone()),
        ObjectItem::Prop(k, e) => ObjectItem::Prop(k.clone(), e.duplicate()),
        ObjectItem::Spread(e) => ObjectItem::Spread(e.duplicate()),
    }
}

fn copy_prop(p: &Prop) -> (r: Prop)
    ensures wf_prop(r) == wf_prop(*p),
    decreases p, 0nat,
{
    Prop { name: p.name.clone(), value: copy_expr_opt(&p.value) }
}

fn copy_object_prop(p: &ObjectProp) -> (r: ObjectProp)
    ensures wf_object_prop(r) == wf_object_prop(*p),
    decreases p, 0nat,
{
    let alias = match &p.alias {
        Some(a) => Some(a.duplicate()),
        None => None,
    };
    ObjectProp { key: p.key.clone(), alias }
}

fn copy_pattern_item(p: &Option<Pattern>) -> (r: Option<Pattern>)
    ensures wf_pattern_item(r) == wf_pattern_item(*p),
    decreases p, 0nat,
{
    match p {
        Some(a) => Some(a.duplicate()),
        None => None,
    }
}

impl Element {
    /// A deep copy.
    pub fn duplicate(&self) -> (r: Element)
        ensures wf_element(r) == wf_element(*self),
        decreases self, 0nat,
    {
        Element {
            tag: self.tag.clone(),
            is_component: self.is_component,
            props: copy_props(&self.props),
            children: copy_exprs(&self.children),
        }
    }
}

impl Pattern {
    /// A deep copy.
    pub fn duplicate(&self) -> (r: Pattern)
        ensures
            wf_pattern(r) == wf_pattern(*self),
            (r is Name) == (self is Name),
            (r matches Pattern::Name { default: None, .. }) == (self matches Pattern::Name { default: None, .. }),
        decreases self, 0nat,
    {
        match self {
            Pattern::Name { name, default } => Pattern::Name { name: name.clone(), default: copy_expr_opt(default) },
            Pattern::Object { props, rest } => Pattern::Object {
                props: copy_object_props(props),
                rest: copy_string_opt(rest),
            },
            Pattern::Array { items, rest } => Pattern::Array {
                items: copy_pattern_items(items),
                rest: copy_string_opt(rest),
            },
        }
    }
}

fn copy_param(p: &Param) -> (r: Param)
    ensures wf_param(r) == wf_param(*p), r.rest == p.rest, plain(r) == plain(*p),
    decreases p, 0nat,
{
    Param { pattern: p.pattern.duplicate(), default: copy_expr_opt(&p.default), rest: p.rest }
}

impl Stmt {
    /// A deep copy.
    pub fn duplicate(&self) -> (r: Stmt)
        ensures
            wf_stmt(r) == wf_stmt(*self),
            (r is Let) == (self is Let),
            (r is Const) == (self is Const),
            (r is Destructure) == (self is Destructure),
            (r is Expr) == (self is Expr),
        decreases self, 0nat,
    {
        match self {
            Stmt::Let { name, value } => Stmt::Let { name: name.clone(), value: value.duplicate() },
            Stmt::Const { name, value } => Stmt::Const { name: name.clone(), value: value.duplicate() },
            Stmt::Destructure { kind, pattern, value } => Stmt::Destructure {
                kind: *kind,
                pattern: pattern.duplicate(),
                value: value.duplicate(),
            },
            Stmt::Return(e) => Stmt::Return(e.duplicate()),
            Stmt::Expr(e) => Stmt::Expr(e.duplicate()),
            Stmt::If { cond, then, else_ } => Stmt::If {
                cond: cond.duplicate(),
                then: copy_stmts(then),
                else_: match else_ {
                    Some(b) => Some(copy_stmts(b)),
                    None => None,
                },
            },
            Stmt::While { cond, body } => Stmt::While { cond: cond.duplicate(), body: copy_stmts(body) },
            Stmt::For { init, cond, update, body } => Stmt::For {
                init: match init {
                    Some(s) => Some(Box::new(s.duplicate())),
                    None => None,
                },
                cond: copy_expr_opt(cond),
                update: copy_expr_opt(update),
                body: copy_stmts(body),
            },
            Stmt::Switch { disc, cases } => Stmt::Switch { disc: disc.duplicate(), cases: copy_cases(cases) },
            Stmt::Break => Stmt::Break,
            Stmt::Continue => Stmt::Continue,
        }
    }
}

fn copy_case(c: &(Option<Expr>, Vec<Stmt>)) -> (r: (Option<Expr>, Vec<Stmt>))
    ensures wf_case(r) == wf_case(*c),
    decreases c, 0nat,
{
    let (t, b) = c;
    (copy_expr_opt(t), copy_stmts(b))
}

fn copy_exprs(v: &Vec<Expr>) -> (r: Vec<Expr>)
    ensures
        r@.len() == v@.len(),
        wf_exprs(r@) == wf_exprs(v@),
    decreases v, 1nat,
{
    let mut out: Vec<Expr> = Vec::new();
    let n = v.len();
    for i in 0..n
        invariant
            n == v@.len(),
            out@.len() == i,
            wf_exprs(out@) == wf_exprs(v@.take(i as int)),
    {
        assert(decreases_to!(v => v@[i as int]));
        let a = v[i].duplicate();
        let ghost o0 = out@;
        out.push(a);
        assert(out@.drop_last() =~= o0);
        assert(v@.take(i + 1).drop_last() =~= v@.take(i as int));
    }
    assert(v@.take(n as int) =~= v@);
    out
}

fn copy_call_args(v: &Vec<CallArg>) -> (r: Vec<CallArg>)
    ensures
        r@.len() == v@.len(),
        wf_call_args(r@) == wf_call_args(v@),
    decreases v, 1nat,
{
    let mut out: Vec<CallArg> = Vec::new();
    let n = v.len();
    for i in 0..n
        invariant
            n == v@.len(),
            out@.len() == i,
            wf_call_args(out@) == wf_call_args(v@.take(i as int)),
    {
        assert(decreases_to!(v => v@[i as int]));
        let a = copy_call_arg(&v[i]);
        let ghost o0 = out@;
        out.push(a);
        assert(out@.drop_last() =~= o0);
        assert(v@.take(i + 1).drop_last() =~= v@.take(i as int));
    }
    assert(v@.take(n as int) =~= v@);
    out
}

fn copy_array_items(v: &Vec<ArrayItem>) -> (r: Vec<ArrayItem>)
    ensures
        r@.len() == v@.len(),
        wf_array_items(r@) == wf_array_items(v@),
    decreases v, 1nat,
{
    let mut out: Vec<ArrayItem> = Vec::new();
    let n = v.len();
    for i in 0..n
        invariant
            n == v@.len(),
            out@.len() == i,
            wf_array_items(out@) == wf_array_items(v@.take(i as int)),
    {
        assert(decreases_to!(v => v@[i as int]));
        let a = copy_array_item(&v[i]);
        let ghost o0 = out@;
        out.push(a);
        assert(out@.drop_last() =~= o0);
        assert(v@.take(i + 1).drop_last() =~= v@.take(i as int));
    }
    assert(v@.take(n as int) =~= v@);
    out
}

fn copy_object_items(v: &Vec<ObjectItem>) -> (r: Vec<ObjectItem>)
    ensures
        r@.len() == v@.len(),
        wf_object_items(r@) == wf_object_items(v@),
    decreases v, 1nat,
{
    let mut out: Vec<ObjectItem> = Vec::new();
    let n = v.len();
    for i in 0..n
        invariant
            n == v@.len(),
            out@.len() == i,
            wf_object_items(out@) == wf_object_items(v@.take(i as int)),
    {
        assert(decreases_to!(v => v@[i as int]));
        let a = copy_object_item(&v[i]);
        let ghost o0 = out@;
        out.push(a);
        assert(out@.drop_last() =~= o0);
        assert(v@.take(i + 1).drop_last() =~= v@.take(i as int));
    }
    assert(v@.take(n as int) =~= v@);
    out
}

fn copy_props(v: &Vec<Prop>) -> (r: Vec<Prop>)
    ensures
        r@.len() == v@.len(),
        wf_props(r@) == wf_props(v@),
    decreases v, 1nat,
{
    let mut out: Vec<Prop> = Vec::new();
    let n = v.len();
    for i in 0..n
        invariant
            n == v@.len(),
            out@.len() == i,
            wf_props(out@) == wf_props(v@.take(i as int)),
    {
        assert(decreases_to!(v => v@[i as int]));
        let a = copy_prop(&v[i]);
        let ghost o0 = out@;
        out.push(a);
        assert(out@.drop_last() =~= o0);
        assert(v@.take(i + 1).drop_last() =~= v@.take(i as int));
    }
    assert(v@.take(n as int) =~= v@);
    out
}

fn copy_stmts(v: &Vec<Stmt>) -> (r: Vec<Stmt>)
    ensures
        r@.len() == v@.len(),
        wf_stmts(r@) == wf_stmts(v@),
    decreases v, 1nat,
{
    let mut out: Vec<Stmt> = Vec::new();
    let n = v.len();
    for i in 0..n
        invariant
            n == v@.len(),
            out@.len() == i,
            wf_stmts(out@) == wf_stmts(v@.take(i as int)),
    {
        assert(decreases_to!(v => v@[i as int]));
        let a = v[i].duplicate();
        let ghost o0 = out@;
        out.push(a);
        assert(out@.drop_last() =~= o0);
        assert(v@.take(i + 1).drop_last() =~= v@.take(i as int));
    }
    assert(v@.take(n as int) =~= v@);
    out
}

fn copy_object_props(v: &Vec<ObjectProp>) -> (r: Vec<ObjectProp>)
    ensures
        r@.len() == v@.len(),
        wf_object_props(r@) == wf_object_props(v@),
    decreases v, 1nat,
{
    let mut out: Vec<ObjectProp> = Vec::new();
    let n = v.len();
    for i in 0..n
        invariant
            n == v@.len(),
            out@.len() == i,
            wf_object_props(out@) == wf_object_props(v@.take(i as int)),
    {
        assert(decreases_to!(v => v@[i as int]));
        let a = copy_object_prop(&v[i]);
        let ghost o0 = out@;
        out.push(a);
        assert(out@.drop_last() =~= o0);
        assert(v@.take(i + 1).drop_last() =~= v@.take(i as int));
    }
    assert(v@.take(n as int) =~= v@);
    out
}

fn copy_pattern_items(v: &Vec<Option<Pattern>>) -> (r: Vec<Option<Pattern>>)
    ensures
        r@.len() == v@.len(),
        wf_pattern_items(r@) == wf_pattern_items(v@),
    decreases v, 1nat,
{
    let mut out: Vec<Option<Pattern>> = Vec::new();
    let n = v.len();
    for i in 0..n
        invariant
            n == v@.len(),
            out@.len() == i,
            wf_pattern_items(out@) == wf_pattern_items(v@.take(i as int)),
    {
        assert(decreases_to!(v => v@[i as int]));
        let a = copy_pattern_item(&v[i]);
        let ghost o0 = out@;
        out.push(a);
        assert(out@.drop_last() =~= o0);
        assert(v@.take(i + 1).drop_last() =~= v@.take(i as int));
    }
    assert(v@.take(n as int) =~= v@);
    out
}

fn copy_cases(v: &Vec<(Option<Expr>, Vec<Stmt>)>) -> (r: Vec<(Option<Expr>, Vec<Stmt>)>)
    ensures
        r@.len() == v@.len(),
        wf_cases(r@) == wf_cases(v@),
    decreases v, 1nat,
{
    let mut out: Vec<(Option<Expr>, Vec<Stmt>)> = Vec::new();
    let n = v.len();
    for i in 0..n
        invariant
            n == v@.len(),
            out@.len() == i,
            wf_cases(out@) == wf_cases(v@.take(i as int)),
    {
        assert(decreases_to!(v => v@[i as int]));
        let a = copy_case(&v[i]);
        let ghost o0 = out@;
        out.push(a);
        assert(out@.drop_last() =~= o0);
        assert(v@.take(i + 1).drop_last() =~= v@.take(i as int));
    }
    assert(v@.take(n as int) =~= v@);
    out
}

fn copy_params(v: &Vec<Param>) -> (r: Vec<Param>)
    ensures
        r@.len() == v@.len(),
        wf_params(r@) == wf_params(v@),
        forall|j: int| 0 <= j < v@.len() ==> (#[trigger] r@[j]).rest == v@[j].rest && plain(r@[j]) == plain(v@[j]),
    decreases v, 1nat,
{
    let mut out: Vec<Param> = Vec::new();
    let n = v.len();
    for i in 0..n
        invariant
            n == v@.len(),
            out@.len() == i,
            wf_params(out@) == wf_params(v@.take(i as int)),
            forall|j: int| 0 <= j < i ==> (#[trigger] out@[j]).rest == v@[j].rest && plain(out@[j]) == plain(v@[j]),
    {
        assert(decreases_to!(v => v@[i as int]));
        let a = copy_param(&v[i]);
        let ghost o0 = out@;
        out.push(a);
        assert(out@.drop_last() =~= o0);
        assert(v@.take(i + 1).drop_last() =~= v@.take(i as int));
    }
    assert(v@.take(n as int) =~= v@);
    out
}

} // verus!
