//! Recursive-descent parser: source characters -> `Program`.
//!
//! Grammar (subset, precedence climbing):
//!
//! ```text
//! program     := decl* EOF
//! decl        := import | component | class | function | export | let/const
//! component   := "component" ident "(" params ")" "{" stmt* "}"
//! stmt        := let/const binding | if | while | for | switch | break
//!              | continue | return | expression statement
//! expr        := assign
//! assign      := nullish (("=" | "+=" | "-=" | "*=" | "/=" | "%=") assign)?
//! nullish     := ternary ("??" ternary)*
//! ternary     := or ("?" ternary ":" ternary)?
//! or          := bitor ("||" bitor)*
//! bitor       := and ("|" and)*
//! and         := equality ("&&" equality)*
//! equality    := comparison (("=="|"!="|"==="|"!==") comparison)*
//! comparison  := additive (("<"|">"|"<="|">=") additive)*
//! additive    := multiplicative (("+"|"-") multiplicative)*
//! multiplicative := unary (("*"|"/"|"%") unary)*
//! unary       := ("-"|"!") unary | postfix
//! postfix     := primary ("." ident | "++" | "--" | "(" args ")" | "[" expr "]")*
//! primary     := literal | ident | arrow | "(" expr ")" | element | array
//!              | object | template | function | try | new | await | yield
//! ```
//!
//! Every successful parse consumes input (the position of the current token
//! strictly advances), which is what makes the mutual recursion terminate,
//! and every AST it builds satisfies the invariants of `crate::ast::wf`.

use vstd::prelude::*;
use crate::ast::expr::{ArrayItem, CallArg, Element, Expr, ObjectItem, Prop, UpdateOp};
use crate::ast::copy::same_kind;
use crate::ast::lit::Literal;
use crate::ast::op::{BinOp, UnOp};
use crate::ast::program::{
    ClassComponent, Component, Decl, DeclKind, ExportDecl, ExportNamed, FuncDecl, GeneratorFn,
    Import, Method, ObjectProp, Param, Pattern, Program, Stmt,
};
use crate::ast::wf::{
    assignable, component_tag, default_root, lemma_push_array_items, lemma_push_call_args,
    lemma_push_cases, lemma_push_exprs, lemma_push_object_items, lemma_push_object_props,
    lemma_push_params, lemma_push_pattern_items, lemma_push_props, lemma_push_stmts, plain,
    rest_last, wf_array_item, wf_array_items, wf_call_arg, wf_call_args, wf_case, wf_cases,
    wf_class, wf_decl, wf_decls, wf_element, wf_expr, wf_exprs, wf_method, wf_object_item,
    wf_object_items, wf_object_prop, wf_object_props, wf_param, wf_params, wf_pattern,
    wf_pattern_item, wf_pattern_items, wf_program, wf_prop, wf_props, wf_stmt, wf_stmts,
};
use crate::parser::error::ParseError;
use crate::parser::lexer::{arrow_next, error_positioned, lemma_arrow_lexeme, lemma_skip_idem, lexeme, skip_spec, payload_free, positioned, Lexer, Token, TokenKind};
use crate::text::{
    append_chars, chars_of, contains_char, is_space, owned, push_str, space, starts_upper,
    str_eq, string_from_chars,
};

verus! {

/// A parser over one source text.
pub struct Parser<'a> {
    lexer: Lexer<'a>,
    current: Token,
}

/// The token is the identifier `w`.
pub open spec fn is_word(k: TokenKind, w: Seq<char>) -> bool {
    k matches TokenKind::Ident(n) && n@ == w
}

/// A token a failed statement's recovery may resume at: `;`, `}`, the end
/// of input, or a statement keyword.
pub open spec fn stmt_boundary(k: TokenKind) -> bool {
    ||| k is Semicolon
    ||| k is RightBrace
    ||| k is Eof
    ||| is_word(k, "let"@) || is_word(k, "const"@) || is_word(k, "return"@) || is_word(k, "if"@)
    ||| is_word(k, "while"@) || is_word(k, "for"@) || is_word(k, "switch"@) || is_word(k, "break"@)
    ||| is_word(k, "continue"@)
}

/// A token a failed declaration's recovery may resume at: `;`, the end of
/// input, `import`, `component` or `export`.
pub open spec fn decl_boundary(k: TokenKind) -> bool {
    ||| k is Semicolon
    ||| k is Eof
    ||| is_word(k, "import"@) || is_word(k, "component"@) || is_word(k, "export"@)
}

/// A token that ends a `case` arm's statements: `}`, the end of input, or
/// the next `case`/`default`.
pub open spec fn case_end(k: TokenKind) -> bool {
    k is RightBrace || k is Eof || is_word(k, "case"@) || is_word(k, "default"@)
}

/// Words that cannot be the bare parameter of a single-parameter arrow.
pub open spec fn arrow_reserved(s: Seq<char>) -> bool {
    s == "async"@
        || s == "await"@
        || s == "yield"@
        || s == "throw"@
        || s == "try"@
        || s == "if"@
        || s == "else"@
        || s == "new"@
        || s == "import"@
        || s == "typeof"@
        || s == "true"@
        || s == "false"@
        || s == "null"@
        || s == "undefined"@
        || s == "this"@
        || s == "case"@
        || s == "default"@
        || s == "return"@
        || s == "let"@
        || s == "const"@
        || s == "while"@
        || s == "for"@
        || s == "switch"@
        || s == "break"@
        || s == "continue"@
        || s == "function"@
        || s == "class"@
        || s == "export"@
        || s == "from"@
        || s == "as"@
}

/// An identifier that can be written as a single-parameter arrow `x => ...`.
fn arrow_param_name(name: &str) -> (r: bool)
    ensures r == !arrow_reserved(name@),
{
    !(str_eq(name, "async") || str_eq(name, "await") || str_eq(name, "yield")
        || str_eq(name, "throw") || str_eq(name, "try") || str_eq(name, "if")
        || str_eq(name, "else") || str_eq(name, "new") || str_eq(name, "import")
        || str_eq(name, "typeof") || str_eq(name, "true") || str_eq(name, "false")
        || str_eq(name, "null") || str_eq(name, "undefined") || str_eq(name, "this")
        || str_eq(name, "case") || str_eq(name, "default") || str_eq(name, "return")
        || str_eq(name, "let") || str_eq(name, "const") || str_eq(name, "while")
        || str_eq(name, "for") || str_eq(name, "switch") || str_eq(name, "break")
        || str_eq(name, "continue") || str_eq(name, "function") || str_eq(name, "class")
        || str_eq(name, "export") || str_eq(name, "from") || str_eq(name, "as"))
}

/// A bare-name parameter.
fn plain_param(name: String) -> (p: Param)
    ensures plain(p), wf_param(p), p.pattern matches Pattern::Name { name: n, .. } && n == name,
{
    Param { pattern: Pattern::Name { name, default: None }, default: None, rest: false }
}

/// The name a binding assigns inside a block body: a plain name itself, a
/// destructuring pattern the reserved `$bind` temporary.
pub open spec fn bind_name(p: Pattern) -> Seq<char> {
    match p {
        Pattern::Name { name, .. } => name@,
        _ => "$bind"@,
    }
}

/// `e` assigns a copy of `value` (an expression of its kind) to the plain
/// identifier named `name`.
pub open spec fn assigns(e: Expr, name: Seq<char>, value: Expr) -> bool {
    &&& e matches Expr::Assign { target, value: v }
    &&& same_kind(*v, value)
    &&& (*target matches Expr::Ident { name: n, is_component: false } && n@ == name)
}

/// What `e`, the expression a statement stands for inside a block body, is
/// known to be: an expression statement or `return` a copy of its
/// expression, a binding an assignment, `if` a conditional on a copy of its
/// condition, a loop a `while` on a copy of its condition (a `for` a block),
/// an empty `switch` `null`, `break`/`continue` themselves.
pub open spec fn block_expr_of(st: Stmt, e: Expr) -> bool {
    match st {
        Stmt::Expr(x) => same_kind(e, x),
        Stmt::Return(x) => same_kind(e, x),
        Stmt::Let { name, value } => assigns(e, name@, value),
        Stmt::Const { name, value } => assigns(e, name@, value),
        Stmt::Destructure { pattern, value, .. } => assigns(e, bind_name(pattern), value),
        Stmt::If { cond, .. } => e matches Expr::Ternary { cond: c, .. } && same_kind(*c, cond),
        Stmt::While { cond, .. } => e matches Expr::While { cond: c, .. } && same_kind(*c, cond),
        Stmt::For { .. } => e is Block,
        Stmt::Switch { cases, .. } => cases@.len() == 0 ==> e == Expr::Literal(Literal::Null),
        Stmt::Break => e == Expr::Break,
        Stmt::Continue => e == Expr::Continue,
    }
}

/// One element of a block body's expression list: a `return e` raises the
/// return of `e`; other statements are as `block_expr_of` says.
pub open spec fn block_item_of(st: Stmt, e: Expr) -> bool {
    match st {
        Stmt::Return(x) => e matches Expr::Return(Some(y)) && same_kind(*y, x),
        _ => block_expr_of(st, e),
    }
}

/// `v` is the expression list of the statements `ss`: one element per
/// statement up to and including the first `return`, each as
/// `block_item_of` says.
pub open spec fn block_items(ss: Seq<Stmt>, v: Seq<Expr>) -> bool {
    &&& v.len() <= ss.len()
    &&& forall|j: int| 0 <= j < v.len() ==> block_item_of(#[trigger] ss[j], v[j])
    &&& forall|j: int| 0 <= j < v.len() - 1 ==> !(#[trigger] ss[j] is Return)
    &&& (v.len() < ss.len() ==> v.len() > 0 && ss[v.len() - 1] is Return)
}

/// A `let`/`const` binding inside a block body becomes an assignment: a plain
/// name assigns directly; a destructuring pattern assigns the reserved
/// `$bind` temporary.
fn lower_binding_to_assign(pattern: Pattern, value: Expr) -> (e: Expr)
    requires wf_expr(value),
    ensures
        wf_expr(e),
        e is Assign,
        e matches Expr::Assign { target, value: v } && *v == value,
        e matches Expr::Assign { target, .. } && (*target matches Expr::Ident { name: n, is_component: false }
            && n@ == bind_name(pattern)),
{
    let ghost p0 = pattern;
    let name = match pattern {
        Pattern::Name { name, .. } => name,
        _ => owned("$bind"),
    };
    proof { reveal_strlit("$bind"); }
    let target = Expr::Ident { name, is_component: false };
    assert(wf_expr(target) && assignable(target));
    Expr::Assign { target: Box::new(target), value: Box::new(value) }
}

/// An identifier or a member access.
fn is_assignable(e: &Expr) -> (r: bool)
    ensures r == assignable(*e),
{
    match e {
        Expr::Ident { .. } => true,
        Expr::Member { .. } => true,
        _ => false,
    }
}

/// The binary operator token `k` spells for `compound_op`.
pub open spec fn compound_op_of(k: TokenKind) -> Option<BinOp> {
    match k {
        TokenKind::PlusEq => Some(BinOp::Add),
        TokenKind::MinusEq => Some(BinOp::Sub),
        TokenKind::StarEq => Some(BinOp::Mul),
        TokenKind::SlashEq => Some(BinOp::Div),
        TokenKind::PercentEq => Some(BinOp::Mod),
        _ => None,
    }
}

/// The compound-assignment operator a token spells, if any.
fn compound_op(k: &TokenKind) -> (r: Option<BinOp>)
    ensures r == compound_op_of(*k),
{
    match k {
        TokenKind::PlusEq => Some(BinOp::Add),
        TokenKind::MinusEq => Some(BinOp::Sub),
        TokenKind::StarEq => Some(BinOp::Mul),
        TokenKind::SlashEq => Some(BinOp::Div),
        TokenKind::PercentEq => Some(BinOp::Mod),
        _ => None,
    }
}

/// The binary operator token `k` spells for `equality_op`.
pub open spec fn equality_op_of(k: TokenKind) -> Option<BinOp> {
    match k {
        TokenKind::EqEq => Some(BinOp::Eq),
        TokenKind::BangEq => Some(BinOp::Neq),
        TokenKind::EqEqEq => Some(BinOp::StrictEq),
        TokenKind::BangEqEq => Some(BinOp::StrictNeq),
        _ => None,
    }
}

/// The equality operator a token spells, if any.
fn equality_op(k: &TokenKind) -> (r: Option<BinOp>)
    ensures r == equality_op_of(*k),
{
    match k {
        TokenKind::EqEq => Some(BinOp::Eq),
        TokenKind::BangEq => Some(BinOp::Neq),
        TokenKind::EqEqEq => Some(BinOp::StrictEq),
        TokenKind::BangEqEq => Some(BinOp::StrictNeq),
        _ => None,
    }
}

/// The binary operator token `k` spells for `comparison_op`.
pub open spec fn comparison_op_of(k: TokenKind) -> Option<BinOp> {
    match k {
        TokenKind::Lt => Some(BinOp::Lt),
        TokenKind::Gt => Some(BinOp::Gt),
        TokenKind::LtEq => Some(BinOp::Le),
        TokenKind::GtEq => Some(BinOp::Ge),
        _ => None,
    }
}

/// The relational operator a token spells, if any.
fn comparison_op(k: &TokenKind) -> (r: Option<BinOp>)
    ensures r == comparison_op_of(*k),
{
    match k {
        TokenKind::Lt => Some(BinOp::Lt),
        TokenKind::Gt => Some(BinOp::Gt),
        TokenKind::LtEq => Some(BinOp::Le),
        TokenKind::GtEq => Some(BinOp::Ge),
        _ => None,
    }
}

/// The binary operator token `k` spells for `additive_op`.
pub open spec fn additive_op_of(k: TokenKind) -> Option<BinOp> {
    match k {
        TokenKind::Plus => Some(BinOp::Add),
        TokenKind::Minus => Some(BinOp::Sub),
        _ => None,
    }
}

/// The additive operator a token spells, if any.
fn additive_op(k: &TokenKind) -> (r: Option<BinOp>)
    ensures r == additive_op_of(*k),
{
    match k {
        TokenKind::Plus => Some(BinOp::Add),
        TokenKind::Minus => Some(BinOp::Sub),
        _ => None,
    }
}

/// The binary operator token `k` spells for `multiplicative_op`.
pub open spec fn multiplicative_op_of(k: TokenKind) -> Option<BinOp> {
    match k {
        TokenKind::Star => Some(BinOp::Mul),
        TokenKind::Slash => Some(BinOp::Div),
        TokenKind::Percent => Some(BinOp::Mod),
        _ => None,
    }
}

/// The multiplicative operator a token spells, if any.
fn multiplicative_op(k: &TokenKind) -> (r: Option<BinOp>)
    ensures r == multiplicative_op_of(*k),
{
    match k {
        TokenKind::Star => Some(BinOp::Mul),
        TokenKind::Slash => Some(BinOp::Div),
        TokenKind::Percent => Some(BinOp::Mod),
        _ => None,
    }
}

/// `return await p` / `return yield v` complete the enclosing function with
/// the resolved value; other expressions are unchanged.
fn mark_from_return(v: Expr) -> (r: Expr)
    requires wf_expr(v),
    ensures
        wf_expr(r),
        r == (match v {
            Expr::Await { value, .. } => Expr::Await { value, from_return: true },
            Expr::Yield { value, .. } => Expr::Yield { value, from_return: true },
            other => other,
        }),
{
    match v {
        Expr::Await { value, .. } => Expr::Await { value, from_return: true },
        Expr::Yield { value, .. } => Expr::Yield { value, from_return: true },
        other => other,
    }
}

/// Unicode-whitespace trim of both ends.
fn trim_chars(s: &Vec<char>) -> (r: Vec<char>)
    ensures
        exists|a: int, b: int| {
            &&& 0 <= a <= b <= s@.len()
            &&& r@ == s@.subrange(a, b)
            &&& (forall|i: int| 0 <= i < a ==> is_space(#[trigger] s@[i]))
            &&& (forall|i: int| b <= i < s@.len() ==> is_space(#[trigger] s@[i]))
            &&& (a < b ==> !is_space(s@[a]) && !is_space(s@[b - 1]))
        },
{
    let mut a: usize = 0;
    let mut b: usize = s.len();
    while a < b && space(s[a])
        invariant
            a <= b == s@.len(),
            forall|i: int| 0 <= i < a ==> is_space(#[trigger] s@[i]),
        decreases b - a,
    {
        a = a + 1;
    }
    while b > a && space(s[b - 1])
        invariant
            a <= b <= s@.len(),
            forall|i: int| 0 <= i < a ==> is_space(#[trigger] s@[i]),
            forall|i: int| b <= i < s@.len() ==> is_space(#[trigger] s@[i]),
            a == s@.len() || !is_space(s@[a as int]),
        decreases b - a,
    {
        b = b - 1;
    }
    let mut out: Vec<char> = Vec::new();
    let mut i = a;
    while i < b
        invariant
            a <= i <= b <= s@.len(),
            out@ == s@.subrange(a as int, i as int),
        decreases b - i,
    {
        out.push(s[i]);
        i = i + 1;
        assert(out@ =~= s@.subrange(a as int, i as int));
    }
    assert(out@ =~= s@.subrange(a as int, b as int));
    out
}

/// The expression a statement stands for inside a block body.
fn stmt_to_block_expr(st: &Stmt) -> (e: Expr)
    requires wf_stmt(*st),
    ensures wf_expr(e), block_expr_of(*st, e),
    decreases st, 0nat,
{
    match st {
        Stmt::Expr(e) => e.duplicate(),
        Stmt::Return(e) => e.duplicate(),
        Stmt::Let { name, value } => lower_binding_to_assign(
            Pattern::Name { name: name.clone(), default: None },
            value.duplicate(),
        ),
        Stmt::Const { name, value } => lower_binding_to_assign(
            Pattern::Name { name: name.clone(), default: None },
            value.duplicate(),
        ),
        Stmt::Destructure { pattern, value, .. } => lower_binding_to_assign(pattern.duplicate(), value.duplicate()),
        Stmt::If { cond, then, else_ } => {
            let then_e = stmts_to_block_expr(then);
            let else_e = match else_ {
                Some(ss) => stmts_to_block_expr(ss),
                None => Expr::Literal(Literal::Null),
            };
            assert(wf_expr(else_e));
            Expr::Ternary { cond: Box::new(cond.duplicate()), then: Box::new(then_e), else_: Box::new(else_e) }
        },
        Stmt::While { cond, body } => {
            let body_e = stmts_to_block_expr(body);
            Expr::While { cond: Box::new(cond.duplicate()), body: Box::new(body_e) }
        },
        Stmt::For { init, cond, update, body } => {
            let mut seq: Vec<Expr> = Vec::new();
            match init {
                Some(i) => {
                    let ie = stmt_to_block_expr(i);
                    seq.push(ie);
                    proof { lemma_push_exprs(Seq::empty(), ie); }
                },
                None => {},
            }
            let ghost s0 = seq@;
            assert(wf_exprs(s0));
            let body_e = stmts_to_block_expr(body);
            let body_e = match update {
                Some(u) => {
                    let mut both: Vec<Expr> = Vec::new();
                    both.push(body_e);
                    let ue = u.duplicate();
                    both.push(ue);
                    proof {
                        lemma_push_exprs(Seq::empty(), body_e);
                        lemma_push_exprs(seq![body_e], ue);
                        assert(seq![body_e].push(ue) =~= both@);
                    }
                    assert(wf_exprs(both@));
                    Expr::Block(both)
                },
                None => body_e,
            };
            let c = match cond {
                Some(c) => c.duplicate(),
                None => Expr::Literal(Literal::Bool(true)),
            };
            assert(wf_expr(c));
            assert(wf_expr(body_e));
            let w = Expr::While { cond: Box::new(c), body: Box::new(body_e) };
            assert(wf_expr(w));
            seq.push(w);
            proof { lemma_push_exprs(s0, w); }
            Expr::Block(seq)
        },
        Stmt::Switch { disc, cases } => {
            let mut acc = Expr::Literal(Literal::Null);
            let mut k = cases.len();
            proof { crate::ast::wf::lemma_wf_cases_forall(cases@); }
            while k > 0
                invariant
                    k <= cases@.len(),
                    cases@.len() == 0 ==> acc == Expr::Literal(Literal::Null),
                    wf_expr(acc),
                    wf_expr(*disc),
                    *st == (Stmt::Switch { disc: *disc, cases: *cases }),
                    forall|j: int| 0 <= j < cases@.len() ==> #[trigger] wf_case(cases@[j]),
                decreases k,
            {
                k = k - 1;
                let (test, body) = &cases[k];
                assert(wf_case(cases@[k as int]));
                assert(st->cases == *cases);
                assert(decreases_to!(*st => st->cases));
                assert(decreases_to!(*cases => cases@));
                assert(decreases_to!(cases@ => cases@[k as int]));
                assert(decreases_to!(cases@[k as int] => cases@[k as int].1));
                let body_e = stmts_to_block_expr(body);
                acc = match test {
                    Some(t) => {
                        let test_e = Expr::Binary {
                            op: BinOp::StrictEq,
                            left: Box::new(disc.duplicate()),
                            right: Box::new(t.duplicate()),
                        };
                        assert(wf_expr(test_e));
                        Expr::Ternary { cond: Box::new(test_e), then: Box::new(body_e), else_: Box::new(acc) }
                    },
                    None => body_e,
                };
            }
            acc
        },
        Stmt::Break => Expr::Break,
        Stmt::Continue => Expr::Continue,
    }
}

/// The expression a statement list stands for inside a block body: a
/// terminal `return` raises function-return control flow and ends the list.
fn stmts_to_block_expr(stmts: &Vec<Stmt>) -> (e: Expr)
    requires wf_stmts(stmts@),
    ensures
        wf_expr(e),
        stmts@.len() == 0 ==> e == Expr::Literal(Literal::Null),
        stmts@.len() > 0 && stmts@[0] is Return ==> block_item_of(stmts@[0], e),
        stmts@.len() == 1 ==> block_item_of(stmts@[0], e),
        stmts@.len() >= 2 && !(stmts@[0] is Return) ==> (e matches Expr::Block(v) && v@.len() >= 2
            && block_items(stmts@, v@)),
    decreases stmts, 1nat,
{
    proof { crate::ast::wf::lemma_wf_stmts_forall(stmts@); }
    let mut out: Vec<Expr> = Vec::new();
    let n = stmts.len();
    let mut i: usize = 0;
    while i < n
        invariant_except_break
            i <= n == stmts@.len(),
            out@.len() == i,
            forall|j: int| 0 <= j < i ==> !(#[trigger] stmts@[j] is Return),
        invariant
            wf_exprs(out@),
            forall|j: int| 0 <= j < stmts@.len() ==> #[trigger] wf_stmt(stmts@[j]),
            forall|j: int| 0 <= j < out@.len() ==> block_item_of(#[trigger] stmts@[j], out@[j]),
        ensures
            block_items(stmts@, out@),
            out@.len() == 0 ==> n == 0,
        decreases n - i,
    {
        assert(decreases_to!(stmts => stmts@[i as int]));
        assert(wf_stmt(stmts@[i as int]));
        match &stmts[i] {
            Stmt::Return(e) => {
                let r = Expr::Return(Some(Box::new(e.duplicate())));
                proof { lemma_push_exprs(out@, r); }
                out.push(r);
                break;
            },
            st => {
                let x = stmt_to_block_expr(st);
                proof { lemma_push_exprs(out@, x); }
                out.push(x);
            },
        }
        i = i + 1;
    }
    if out.len() == 0 {
        return Expr::Literal(Literal::Null);
    }
    if out.len() == 1 {
        proof { crate::ast::wf::lemma_wf_exprs_forall(out@); }
        let x = out.pop();
        match x {
            Some(x) => {
                return x;
            },
            None => {
                return Expr::Literal(Literal::Null);
            },
        }
    }
    Expr::Block(out)
}

/// How tightly a binary operator binds, loosest first: `??`, `||`, `|`,
/// `&&`, the equalities, the comparisons, `+ -`, `* / %`.
pub open spec fn prec(op: BinOp) -> nat {
    match op {
        BinOp::Nullish => 1,
        BinOp::Or => 2,
        BinOp::BitOr => 3,
        BinOp::And => 4,
        BinOp::Eq | BinOp::Neq | BinOp::StrictEq | BinOp::StrictNeq => 5,
        BinOp::Lt | BinOp::Gt | BinOp::Le | BinOp::Ge => 6,
        BinOp::Add | BinOp::Sub => 7,
        BinOp::Mul | BinOp::Div | BinOp::Mod => 8,
    }
}

/// `x` is a binary operation binding more loosely than level `l`.
pub open spec fn binds_below(x: Expr, l: nat) -> bool {
    x matches Expr::Binary { op, .. } && prec(op) < l
}

/// Precedence and associativity hold at the root of `x`: where `x` is a
/// binary operation, an operand that is itself a looser binary operation
/// (or, on the right, one of the same level) was written in parentheses,
/// whose `(` stands in `src` between positions `lo` (included) and `hi`. So
/// `a - b - c` reads as `(a - b) - c` and `a + b * c` as `a + (b * c)`.
pub open spec fn ops_ok(x: Expr, src: Seq<char>, lo: int, hi: int) -> bool {
    x matches Expr::Binary { op, left, right } ==> {
        &&& (*left matches Expr::Binary { op: l, .. } && prec(l) < prec(op)
            ==> exists|p: int| lo <= p < hi && #[trigger] paren_at(src, p))
        &&& (*right matches Expr::Binary { op: q, .. } && prec(q) <= prec(op)
            ==> exists|p: int| lo <= p < hi && #[trigger] paren_at(src, p))
    }
}

/// Without parentheses in the text an expression was parsed from, binary
/// operators of one level associate to the left and tighter ones group
/// first: the right operand of an operation is never an operation of the
/// same or a looser level, and its left operand never a looser one. So
/// `a - b - c` is `(a - b) - c`, and `a * b + c` is `(a * b) + c`.
pub proof fn law_operators_group_by_precedence(x: Expr, src: Seq<char>, lo: int, hi: int)
    requires
        ops_ok(x, src, lo, hi),
        forall|p: int| lo <= p < hi ==> !(#[trigger] paren_at(src, p)),
    ensures
        x matches Expr::Binary { op, left, right } ==> {
            &&& !(*left matches Expr::Binary { op: l, .. } && prec(l) < prec(op))
            &&& !(*right matches Expr::Binary { op: q, .. } && prec(q) <= prec(op))
        },
{
}

/// Position `p` of `s` holds an opening parenthesis.
pub open spec fn paren_at(s: Seq<char>, p: int) -> bool {
    0 <= p < s.len() && s[p] == '('
}

/// The lexeme of a `(` token is an opening parenthesis.
proof fn lemma_paren_lexeme(s: Seq<char>, i: int, e: int)
    requires
        lexeme(TokenKind::LeftParen, s, i, e),
        0 <= i <= e <= s.len(),
    ensures
        paren_at(s, i),
{
    assert(s.subrange(i, e) == seq!['(']);
    assert(s.subrange(i, e)[0] == s[i]);
}

impl<'a> Parser<'a> {
    /// The parser's state is consistent: the lexer is well formed with no
    /// parked token, the current token is positioned in the source and lies
    /// before the lexer's cursor (or is the end of file).
    pub closed spec fn inv(&self) -> bool {
        &&& self.lexer.wf()
        &&& !self.lexer.has_pending()
        &&& positioned(self.current, self.lexer.text())
        &&& !(self.current.kind is TemplateText)
        &&& (self.current.kind is Eof ==> self.current.index == self.lexer.text().len()
            && self.lexer.cursor() == self.lexer.text().len())
        &&& (!(self.current.kind is Eof) ==> self.current.index < self.lexer.cursor())
        &&& (self.current.kind is LeftParen ==> paren_at(self.lexer.text(), self.current.index as int))
    }

    /// The position of the current token in the source.
    pub closed spec fn at(&self) -> int {
        self.current.index as int
    }

    /// The whole input has been read: the current token is the end of file.
    pub closed spec fn at_end(&self) -> bool {
        self.current.kind is Eof
    }

    /// The source being parsed.
    pub closed spec fn source(&self) -> Seq<char> {
        self.lexer.text()
    }

    /// Characters from the current token to the end of the source.
    pub closed spec fn rem(&self) -> nat {
        (self.lexer.text().len() - self.current.index) as nat
    }

    /// A parser positioned at the first token of `src`.
    pub fn new(src: &'a [char]) -> (r: Result<Parser<'a>, ParseError>)
        requires src@.len() <= usize::MAX / 8,
        ensures
            r matches Ok(p) ==> p.inv() && p.source() == src@,
            r matches Ok(p) ==> (p.at_end() <==> skip_spec(src@, 0) == Some(src@.len() as int)),
            r matches Err(e) ==> error_positioned(e, src@),
    {
        let mut lexer = Lexer::new(src)?;
        proof {
            lexer.lemma_bounds();
            lemma_skip_idem(src@, 0);
        }
        let ghost had = lexer.has_pending();
        let ghost l0 = lexer;
        let current = lexer.next_token()?;
        proof {
            lexer.lemma_bounds();
            if had {
                l0.lemma_pending_kind();
            } else if current.kind is LeftParen {
                lemma_paren_lexeme(lexer.text(), current.index as int, lexer.cursor());
            }
        }
        Ok(Parser { lexer, current })
    }

    fn advance(&mut self) -> (r: Result<Token, ParseError>)
        requires old(self).inv(),
        ensures
            final(self).source() == old(self).source(),
            r matches Ok(t) ==> final(self).inv() && t == old(self).current
                && final(self).rem() <= old(self).rem()
                && (!(old(self).current.kind is Eof) ==> final(self).rem() < old(self).rem()),
            r matches Err(e) ==> error_positioned(e, old(self).source()),
    {
        let mut tok = self.lexer.next_token()?;
        proof {
            self.lexer.lemma_bounds();
            if tok.kind is LeftParen {
                lemma_paren_lexeme(self.lexer.text(), tok.index as int, self.lexer.cursor());
            }
        }
        std::mem::swap(&mut self.current, &mut tok);
        Ok(tok)
    }

    fn err(&self, msg: &str) -> (e: ParseError)
        requires positioned(self.current, self.source()),
        ensures error_positioned(e, self.source()),
    {
        let e = ParseError::new(self.current.line, self.current.column, owned(msg));
        proof {
            assert(e.line == crate::parser::lexer::line_at(self.source(), self.current.index as int));
        }
        e
    }

    fn err_string(&self, msg: String) -> (e: ParseError)
        requires positioned(self.current, self.source()),
        ensures error_positioned(e, self.source()),
    {
        let e = ParseError::new(self.current.line, self.current.column, msg);
        proof {
            assert(e.line == crate::parser::lexer::line_at(self.source(), self.current.index as int));
        }
        e
    }

    fn check(&self, kind: &TokenKind) -> (r: bool)
        requires payload_free(*kind),
        ensures r == (self.current.kind == *kind),
    {
        self.current.kind.same(kind)
    }

    fn at_eof(&self) -> (r: bool)
        ensures r == (self.current.kind is Eof),
    {
        self.current.kind.same(&TokenKind::Eof)
    }

    /// Whether the current token is the identifier `kw`.
    fn is_kw(&self, kw: &str) -> (r: bool)
        ensures r == is_word(self.current.kind, kw@),
    {
        match &self.current.kind {
            TokenKind::Ident(n) => str_eq(n.as_str(), kw),
            _ => false,
        }
    }

    fn expect(&mut self, kind: TokenKind) -> (r: Result<(), ParseError>)
        requires old(self).inv(), payload_free(kind), !(kind is Eof),
        ensures
            final(self).source() == old(self).source(),
            r matches Ok(_) ==> final(self).inv() && final(self).rem() < old(self).rem()
                && old(self).current.kind == kind,
            r matches Err(e) ==> error_positioned(e, old(self).source()),
    {
        if self.current.kind.same(&kind) {
            self.advance()?;
            Ok(())
        } else {
            let mut m: Vec<char> = Vec::new();
            push_str(&mut m, "expected ");
            let d = kind.describe();
            push_str(&mut m, d.as_str());
            push_str(&mut m, ", found ");
            let f = self.current.kind.describe();
            push_str(&mut m, f.as_str());
            Err(self.err_string(string_from_chars(&m)))
        }
    }

    fn expect_ident(&mut self) -> (r: Result<String, ParseError>)
        requires old(self).inv(),
        ensures
            final(self).source() == old(self).source(),
            r matches Ok(_) ==> final(self).inv() && final(self).rem() < old(self).rem(),
            r matches Err(e) ==> error_positioned(e, old(self).source()),
    {
        match &self.current.kind {
            TokenKind::Ident(name) => {
                let n = name.clone();
                self.advance()?;
                Ok(n)
            },
            _ => {
                let mut m: Vec<char> = Vec::new();
                push_str(&mut m, "expected an identifier, found ");
                let f = self.current.kind.describe();
                push_str(&mut m, f.as_str());
                Err(self.err_string(string_from_chars(&m)))
            },
        }
    }

    fn expect_keyword(&mut self, kw: &str) -> (r: Result<(), ParseError>)
        requires old(self).inv(),
        ensures
            final(self).source() == old(self).source(),
            r matches Ok(_) ==> final(self).inv() && final(self).rem() < old(self).rem(),
            r matches Err(e) ==> error_positioned(e, old(self).source()),
    {
        if self.is_kw(kw) {
            self.advance()?;
            Ok(())
        } else {
            let mut m: Vec<char> = Vec::new();
            push_str(&mut m, "expected `");
            push_str(&mut m, kw);
            push_str(&mut m, "`");
            Err(self.err_string(string_from_chars(&m)))
        }
    }

    fn expect_from(&mut self) -> (r: Result<(), ParseError>)
        requires old(self).inv(),
        ensures
            final(self).source() == old(self).source(),
            r matches Ok(_) ==> final(self).inv() && final(self).rem() < old(self).rem(),
            r matches Err(e) ==> error_positioned(e, old(self).source()),
    {
        self.expect_keyword("from")
    }

    fn expect_string(&mut self) -> (r: Result<String, ParseError>)
        requires old(self).inv(),
        ensures
            final(self).source() == old(self).source(),
            r matches Ok(_) ==> final(self).inv() && final(self).rem() < old(self).rem(),
            r matches Err(e) ==> error_positioned(e, old(self).source()),
    {
        match &self.current.kind {
            TokenKind::String(s) => {
                let v = s.clone();
                self.advance()?;
                Ok(v)
            },
            _ => Err(self.err("expected a module specifier string")),
        }
    }

    // ---- patterns and parameters ----

    /// `(p1, p2, ...)` — full parameter patterns; a `...rest` must be last.
    fn parse_param_patterns(&mut self) -> (r: Result<Vec<Param>, ParseError>)
        requires old(self).inv(),
        ensures
            final(self).source() == old(self).source(),
            r matches Ok(ps) ==> final(self).inv() && final(self).rem() < old(self).rem() && wf_params(ps@) && rest_last(ps@),
            r matches Err(e) ==> error_positioned(e, old(self).source()),
        decreases old(self).rem(), 2nat,
    {
        self.expect(TokenKind::LeftParen)?;
        let mut params: Vec<Param> = Vec::new();
        if !self.check(&TokenKind::RightParen) {
            let p = self.parse_param()?;
            proof { lemma_push_params(params@, p); }
            params.push(p);
            while self.check(&TokenKind::Comma)
                invariant
                    self.inv(),
                    self.source() == old(self).source(),
                    self.rem() < old(self).rem(),
                    wf_params(params@),
                decreases self.rem(),
            {
                self.advance()?;
                if self.check(&TokenKind::RightParen) {
                    break;
                }
                let p = self.parse_param()?;
                proof { lemma_push_params(params@, p); }
                params.push(p);
            }
        }
        self.expect(TokenKind::RightParen)?;
        let n = params.len();
        for i in 0..n
            invariant
                n == params@.len(),
                self.inv(),
                self.source() == old(self).source(),
                forall|j: int| 0 <= j < i && #[trigger] params@[j].rest ==> j == n - 1,
        {
            if params[i].rest && i + 1 != n {
                return Err(self.err("rest parameter must be last"));
            }
        }
        Ok(params)
    }

    fn parse_param(&mut self) -> (r: Result<Param, ParseError>)
        requires old(self).inv(),
        ensures
            final(self).source() == old(self).source(),
            r matches Ok(p) ==> final(self).inv() && final(self).rem() < old(self).rem() && wf_param(p),
            r matches Err(e) ==> error_positioned(e, old(self).source()),
        decreases old(self).rem(), 8nat,
    {
        if self.check(&TokenKind::DotDotDot) {
            self.advance()?;
            let name = self.expect_ident()?;
            return Ok(Param { pattern: Pattern::Name { name, default: None }, default: None, rest: true });
        }
        let pattern = self.parse_pattern()?;
        let default = if self.check(&TokenKind::Equals) {
            self.advance()?;
            Some(self.parse_expr()?)
        } else {
            None
        };
        Ok(Param { pattern, default, rest: false })
    }

    /// A binding pattern in parameter or nested position (`x = d` allowed).
    fn parse_pattern(&mut self) -> (r: Result<Pattern, ParseError>)
        requires old(self).inv(),
        ensures
            final(self).source() == old(self).source(),
            r matches Ok(p) ==> final(self).inv() && final(self).rem() < old(self).rem() && wf_pattern(p),
            r matches Err(e) ==> error_positioned(e, old(self).source()),
        decreases old(self).rem(), 6nat,
    {
        self.parse_pattern_inner(false)
    }

    /// A `let`/`const` binding pattern: a bare `name` followed by `=` is a
    /// plain name (the `=` starts the value).
    fn parse_binding_pattern(&mut self) -> (r: Result<Pattern, ParseError>)
        requires old(self).inv(),
        ensures
            final(self).source() == old(self).source(),
            r matches Ok(p) ==> final(self).inv() && final(self).rem() < old(self).rem() && wf_pattern(p) && (p is Name ==> p->Name_default is None),
            r matches Err(e) ==> error_positioned(e, old(self).source()),
        decreases old(self).rem(), 6nat,
    {
        self.parse_pattern_inner(true)
    }

    fn parse_pattern_inner(&mut self, in_binding: bool) -> (r: Result<Pattern, ParseError>)
        requires old(self).inv(),
        ensures
            final(self).source() == old(self).source(),
            r matches Ok(p) ==> final(self).inv() && final(self).rem() < old(self).rem() && wf_pattern(p) && (in_binding && p is Name ==> p->Name_default is None),
            r matches Err(e) ==> error_positioned(e, old(self).source()),
        decreases old(self).rem(), 4nat,
    {
        if self.check(&TokenKind::LeftBrace) {
            return self.parse_object_pattern();
        }
        if self.check(&TokenKind::LeftBracket) {
            return self.parse_array_pattern();
        }
        let name = self.expect_ident()?;
        let default = if self.check(&TokenKind::Equals) && !in_binding {
            self.advance()?;
            Some(self.parse_expr()?)
        } else {
            None
        };
        Ok(Pattern::Name { name, default })
    }

    fn parse_object_pattern(&mut self) -> (r: Result<Pattern, ParseError>)
        requires old(self).inv(),
        ensures
            final(self).source() == old(self).source(),
            r matches Ok(p) ==> final(self).inv() && final(self).rem() < old(self).rem() && wf_pattern(p) && p is Object,
            r matches Err(e) ==> error_positioned(e, old(self).source()),
        decreases old(self).rem(), 2nat,
    {
        self.expect(TokenKind::LeftBrace)?;
        let mut props: Vec<ObjectProp> = Vec::new();
        let mut rest: Option<String> = None;
        while !self.check(&TokenKind::RightBrace)
            invariant
                self.inv(),
                self.source() == old(self).source(),
                self.rem() < old(self).rem(),
                wf_object_props(props@),
            decreases self.rem(),
        {
            if self.check(&TokenKind::DotDotDot) {
                self.advance()?;
                rest = Some(self.expect_ident()?);
                if self.check(&TokenKind::Comma) {
                    self.advance()?;
                }
                break;
            }
            let key = self.expect_ident()?;
            let alias = if self.check(&TokenKind::Colon) {
                self.advance()?;
                Some(self.parse_pattern()?)
            } else if self.check(&TokenKind::Equals) {
                self.advance()?;
                let d = self.parse_expr()?;
                Some(Pattern::Name { name: key.clone(), default: Some(d) })
            } else {
                None
            };
            let op = ObjectProp { key, alias };
            proof { lemma_push_object_props(props@, op); }
            props.push(op);
            if self.check(&TokenKind::Comma) {
                self.advance()?;
            } else {
                break;
            }
        }
        self.expect(TokenKind::RightBrace)?;
        Ok(Pattern::Object { props, rest })
    }

    fn parse_array_pattern(&mut self) -> (r: Result<Pattern, ParseError>)
        requires old(self).inv(),
        ensures
            final(self).source() == old(self).source(),
            r matches Ok(p) ==> final(self).inv() && final(self).rem() < old(self).rem() && wf_pattern(p) && p is Array,
            r matches Err(e) ==> error_positioned(e, old(self).source()),
        decreases old(self).rem(), 2nat,
    {
        self.expect(TokenKind::LeftBracket)?;
        let mut items: Vec<Option<Pattern>> = Vec::new();
        let mut rest: Option<String> = None;
        while !self.check(&TokenKind::RightBracket)
            invariant
                self.inv(),
                self.source() == old(self).source(),
                self.rem() < old(self).rem(),
                wf_pattern_items(items@),
            decreases self.rem(),
        {
            if self.check(&TokenKind::Comma) {
                self.advance()?;
                proof { lemma_push_pattern_items(items@, None); }
                items.push(None);
                continue;
            }
            if self.check(&TokenKind::DotDotDot) {
                self.advance()?;
                rest = Some(self.expect_ident()?);
                if self.check(&TokenKind::Comma) {
                    self.advance()?;
                }
                break;
            }
            let p = self.parse_pattern()?;
            proof { lemma_push_pattern_items(items@, Some(p)); }
            items.push(Some(p));
            if self.check(&TokenKind::Comma) {
                self.advance()?;
            } else {
                break;
            }
        }
        self.expect(TokenKind::RightBracket)?;
        Ok(Pattern::Array { items, rest })
    }

    /// `pattern = value` for `let`/`const`.
    fn parse_binding(&mut self) -> (r: Result<(Pattern, Expr), ParseError>)
        requires old(self).inv(),
        ensures
            final(self).source() == old(self).source(),
            r matches Ok(b) ==> final(self).inv() && final(self).rem() < old(self).rem() && wf_pattern(b.0) && wf_expr(b.1) && (b.0 is Name ==> b.0->Name_default is None),
            r matches Err(e) ==> error_positioned(e, old(self).source()),
        decreases old(self).rem(), 8nat,
    {
        let pattern = self.parse_binding_pattern()?;
        self.expect(TokenKind::Equals)?;
        let value = self.parse_expr()?;
        Ok((pattern, value))
    }

    // ---- statements ----

    /// `{ stmts }` — consumes both braces.
    fn parse_stmt_block(&mut self) -> (r: Result<Vec<Stmt>, ParseError>)
        requires old(self).inv(),
        ensures
            final(self).source() == old(self).source(),
            r matches Ok(ss) ==> final(self).inv() && final(self).rem() < old(self).rem() && wf_stmts(ss@),
            r matches Err(e) ==> error_positioned(e, old(self).source()),
        decreases old(self).rem(), 2nat,
    {
        self.expect(TokenKind::LeftBrace)?;
        let mut body: Vec<Stmt> = Vec::new();
        while !self.check(&TokenKind::RightBrace) && !self.at_eof()
            invariant
                self.inv(),
                self.source() == old(self).source(),
                self.rem() < old(self).rem(),
                wf_stmts(body@),
            decreases self.rem(),
        {
            let s = self.parse_stmt()?;
            proof { lemma_push_stmts(body@, s); }
            body.push(s);
        }
        self.expect(TokenKind::RightBrace)?;
        Ok(body)
    }

    /// A loop/branch body: a `{ stmts }` block or a single statement.
    fn parse_stmt_or_block(&mut self) -> (r: Result<Vec<Stmt>, ParseError>)
        requires old(self).inv(),
        ensures
            final(self).source() == old(self).source(),
            r matches Ok(ss) ==> final(self).inv() && final(self).rem() < old(self).rem() && wf_stmts(ss@),
            r matches Err(e) ==> error_positioned(e, old(self).source()),
        decreases old(self).rem(), 36nat,
    {
        if self.check(&TokenKind::LeftBrace) {
            self.parse_stmt_block()
        } else {
            let s = self.parse_stmt()?;
            let mut v: Vec<Stmt> = Vec::new();
            proof { lemma_push_stmts(v@, s); }
            v.push(s);
            Ok(v)
        }
    }

    /// `for (init; cond; update) body`.
    fn parse_for(&mut self) -> (r: Result<Stmt, ParseError>)
        requires old(self).inv(),
        ensures
            final(self).source() == old(self).source(),
            r matches Ok(s) ==> final(self).inv() && final(self).rem() < old(self).rem() && wf_stmt(s),
            r matches Err(e) ==> error_positioned(e, old(self).source()),
        decreases old(self).rem(), 2nat,
    {
        self.advance()?;
        self.expect(TokenKind::LeftParen)?;
        let init: Option<Box<Stmt>> = if self.check(&TokenKind::Semicolon) {
            self.advance()?;
            None
        } else if self.is_kw("let") || self.is_kw("const") {
            let kind = if self.is_kw("let") { DeclKind::Let } else { DeclKind::Const };
            self.advance()?;
            let (pattern, value) = self.parse_binding()?;
            self.expect(TokenKind::Semicolon)?;
            let stmt = match pattern {
                Pattern::Name { name, .. } => match kind {
                    DeclKind::Let => Stmt::Let { name, value },
                    DeclKind::Const => Stmt::Const { name, value },
                },
                pattern => Stmt::Destructure { kind, pattern, value },
            };
            assert(wf_stmt(stmt));
            Some(Box::new(stmt))
        } else {
            let e = self.parse_expr()?;
            self.expect(TokenKind::Semicolon)?;
            let stmt = Stmt::Expr(e);
            assert(wf_stmt(stmt));
            Some(Box::new(stmt))
        };
        let cond = if self.check(&TokenKind::Semicolon) {
            None
        } else {
            Some(self.parse_expr()?)
        };
        self.expect(TokenKind::Semicolon)?;
        let update = if self.check(&TokenKind::RightParen) {
            None
        } else {
            Some(self.parse_expr()?)
        };
        self.expect(TokenKind::RightParen)?;
        let body = self.parse_stmt_or_block()?;
        Ok(Stmt::For { init, cond, update, body })
    }

    /// Statements of one `case`/`default` arm: up to the next arm or `}`.
    fn parse_case_body(&mut self) -> (r: Result<Vec<Stmt>, ParseError>)
        requires old(self).inv(),
        ensures
            final(self).source() == old(self).source(),
            r matches Ok(ss) ==> final(self).inv() && final(self).rem() <= old(self).rem() && wf_stmts(ss@),
            r matches Ok(ss) ==> case_end(final(self).current.kind)
                && (ss@.len() == 0 <==> case_end(old(self).current.kind)),
            r matches Err(e) ==> error_positioned(e, old(self).source()),
        decreases old(self).rem(), 38nat,
    {
        let mut body: Vec<Stmt> = Vec::new();
        while !self.check(&TokenKind::RightBrace) && !self.is_kw("case") && !self.is_kw("default")
            && !self.at_eof()
            invariant
                self.inv(),
                self.source() == old(self).source(),
                self.rem() <= old(self).rem(),
                wf_stmts(body@),
                body@.len() == 0 ==> self.current == old(self).current,
                body@.len() > 0 ==> !case_end(old(self).current.kind),
            decreases self.rem(),
        {
            let s = self.parse_stmt()?;
            proof { lemma_push_stmts(body@, s); }
            body.push(s);
        }
        assert(body@.len() == 0 <==> case_end(old(self).current.kind));
        Ok(body)
    }

    /// `switch (disc) { case e: stmts... default: stmts... }`.
    fn parse_switch(&mut self) -> (r: Result<Stmt, ParseError>)
        requires old(self).inv(),
        ensures
            final(self).source() == old(self).source(),
            r matches Ok(s) ==> final(self).inv() && final(self).rem() < old(self).rem() && wf_stmt(s),
            r matches Err(e) ==> error_positioned(e, old(self).source()),
        decreases old(self).rem(), 2nat,
    {
        self.advance()?;
        self.expect(TokenKind::LeftParen)?;
        let disc = self.parse_expr()?;
        self.expect(TokenKind::RightParen)?;
        self.expect(TokenKind::LeftBrace)?;
        let mut cases: Vec<(Option<Expr>, Vec<Stmt>)> = Vec::new();
        while !self.check(&TokenKind::RightBrace) && !self.at_eof()
            invariant
                self.inv(),
                self.source() == old(self).source(),
                self.rem() < old(self).rem(),
                wf_cases(cases@),
            decreases self.rem(),
        {
            if self.is_kw("case") {
                self.advance()?;
                let test = self.parse_expr()?;
                self.expect(TokenKind::Colon)?;
                let body = self.parse_case_body()?;
                let c = (Some(test), body);
                proof { lemma_push_cases(cases@, c); }
                cases.push(c);
            } else if self.is_kw("default") {
                self.advance()?;
                self.expect(TokenKind::Colon)?;
                let body = self.parse_case_body()?;
                let c = (None, body);
                proof { lemma_push_cases(cases@, c); }
                cases.push(c);
            } else {
                return Err(self.err("expected `case` or `default` in switch body"));
            }
        }
        self.expect(TokenKind::RightBrace)?;
        Ok(Stmt::Switch { disc, cases })
    }

    fn parse_stmt(&mut self) -> (r: Result<Stmt, ParseError>)
        requires old(self).inv(),
        ensures
            final(self).source() == old(self).source(),
            r matches Ok(s) ==> final(self).inv() && final(self).rem() < old(self).rem() && wf_stmt(s),
            r matches Err(e) ==> error_positioned(e, old(self).source()),
        decreases old(self).rem(), 34nat,
    {
        if self.is_kw("let") || self.is_kw("const") {
            let kind = if self.is_kw("let") { DeclKind::Let } else { DeclKind::Const };
            self.advance()?;
            let (pattern, value) = self.parse_binding()?;
            self.expect(TokenKind::Semicolon)?;
            return match pattern {
                Pattern::Name { name, .. } => match kind {
                    DeclKind::Let => Ok(Stmt::Let { name, value }),
                    DeclKind::Const => Ok(Stmt::Const { name, value }),
                },
                pattern => Ok(Stmt::Destructure { kind, pattern, value }),
            };
        }
        if self.is_kw("if") {
            self.advance()?;
            self.expect(TokenKind::LeftParen)?;
            let cond = self.parse_expr()?;
            self.expect(TokenKind::RightParen)?;
            let then = self.parse_stmt_or_block()?;
            let else_ = if self.is_kw("else") {
                self.advance()?;
                Some(self.parse_stmt_or_block()?)
            } else {
                None
            };
            return Ok(Stmt::If { cond, then, else_ });
        }
        if self.is_kw("while") {
            self.advance()?;
            self.expect(TokenKind::LeftParen)?;
            let cond = self.parse_expr()?;
            self.expect(TokenKind::RightParen)?;
            let body = self.parse_stmt_or_block()?;
            return Ok(Stmt::While { cond, body });
        }
        if self.is_kw("for") {
            return self.parse_for();
        }
        if self.is_kw("switch") {
            return self.parse_switch();
        }
        if self.is_kw("break") {
            self.advance()?;
            self.expect(TokenKind::Semicolon)?;
            return Ok(Stmt::Break);
        }
        if self.is_kw("continue") {
            self.advance()?;
            self.expect(TokenKind::Semicolon)?;
            return Ok(Stmt::Continue);
        }
        if self.is_kw("return") {
            self.advance()?;
            if self.check(&TokenKind::Semicolon) {
                self.advance()?;
                let u = Expr::Literal(Literal::Undefined);
                assert(wf_expr(u));
                return Ok(Stmt::Return(u));
            }
            let value = self.parse_expr()?;
            if self.check(&TokenKind::Semicolon) {
                self.advance()?;
            }
            return Ok(Stmt::Return(value));
        }
        let value = self.parse_expr()?;
        if self.check(&TokenKind::Semicolon) {
            self.advance()?;
        }
        Ok(Stmt::Expr(value))
    }

    // ---- expressions ----

    /// An expression (lowest precedence: assignment).
    pub fn parse_expr(&mut self) -> (r: Result<Expr, ParseError>)
        requires old(self).inv(),
        ensures
            final(self).source() == old(self).source(),
            r matches Ok(x) ==> final(self).inv() && final(self).rem() < old(self).rem() && wf_expr(x),
            r matches Err(e) ==> error_positioned(e, old(self).source()),
            r matches Ok(x) ==> ops_ok(x, old(self).source(), old(self).at(), final(self).at()),
        decreases old(self).rem(), 30nat,
    {
        self.parse_assign()
    }

    /// `target = value` / `target op= value` (right-associative). A compound
    /// assignment `x op= v` becomes `x = x op v`.
    fn parse_assign(&mut self) -> (r: Result<Expr, ParseError>)
        requires old(self).inv(),
        ensures
            final(self).source() == old(self).source(),
            r matches Ok(x) ==> final(self).inv() && final(self).rem() < old(self).rem() && wf_expr(x),
            r matches Err(e) ==> error_positioned(e, old(self).source()),
            r matches Ok(x) ==> ops_ok(x, old(self).source(), old(self).at(), final(self).at()),
        decreases old(self).rem(), 28nat,
    {
        let target = self.parse_nullish()?;
        match compound_op(&self.current.kind) {
            Some(op) => {
                if !is_assignable(&target) {
                    return Err(self.err("assignment target must be an identifier or a member access"));
                }
                self.advance()?;
                let value = self.parse_assign()?;
                let lhs = target.duplicate();
                let rhs = Expr::Binary { op, left: Box::new(target), right: Box::new(value) };
                assert(wf_expr(rhs));
                return Ok(Expr::Assign { target: Box::new(lhs), value: Box::new(rhs) });
            },
            None => {},
        }
        if self.check(&TokenKind::Equals) {
            if !is_assignable(&target) {
                return Err(self.err("assignment target must be an identifier or a member access"));
            }
            self.advance()?;
            let value = self.parse_assign()?;
            return Ok(Expr::Assign { target: Box::new(target), value: Box::new(value) });
        }
        Ok(target)
    }

    fn parse_nullish(&mut self) -> (r: Result<Expr, ParseError>)
        requires old(self).inv(),
        ensures
            final(self).source() == old(self).source(),
            r matches Ok(x) ==> final(self).inv() && final(self).rem() < old(self).rem() && wf_expr(x),
            r matches Err(e) ==> error_positioned(e, old(self).source()),
            r matches Ok(x) ==> (binds_below(x, 1nat) ==> old(self).current.kind is LeftParen),
            r matches Ok(x) ==> ops_ok(x, old(self).source(), old(self).at(), final(self).at()),
        decreases old(self).rem(), 26nat,
    {
        let mut left = self.parse_ternary()?;
        while self.check(&TokenKind::QuestionQuestion)
            invariant
                self.inv(),
                self.source() == old(self).source(),
                self.rem() < old(self).rem(),
                wf_expr(left),
                binds_below(left, 1nat) ==> old(self).current.kind is LeftParen,
                ops_ok(left, self.source(), old(self).at(), self.at()),
                old(self).inv(),
            decreases self.rem(),
        {
            let ghost head = *self;
            self.advance()?;
            let ghost pre = *self;
            let right = self.parse_ternary()?;
            proof {
                assert(head.rem() < old(self).rem());
                assert(pre.rem() <= head.rem());
                assert(self.rem() < pre.rem());
                assert(pre.source() == self.source());
                assert(old(self).at() <= pre.at() < self.at());
                if binds_below(right, 2nat) {
                    assert(pre.inv());
                    assert(paren_at(self.source(), pre.at()));
                }
                if binds_below(left, 1nat) {
                    assert(paren_at(self.source(), old(self).at()));
                }
            }
            left = Expr::Binary { op: BinOp::Nullish, left: Box::new(left), right: Box::new(right) };
        }
        Ok(left)
    }

    fn parse_ternary(&mut self) -> (r: Result<Expr, ParseError>)
        requires old(self).inv(),
        ensures
            final(self).source() == old(self).source(),
            r matches Ok(x) ==> final(self).inv() && final(self).rem() < old(self).rem() && wf_expr(x),
            r matches Err(e) ==> error_positioned(e, old(self).source()),
            r matches Ok(x) ==> (binds_below(x, 2nat) ==> old(self).current.kind is LeftParen),
            r matches Ok(x) ==> ops_ok(x, old(self).source(), old(self).at(), final(self).at()),
        decreases old(self).rem(), 24nat,
    {
        let cond = self.parse_or()?;
        if self.check(&TokenKind::Question) {
            self.advance()?;
            let then = self.parse_ternary()?;
            self.expect(TokenKind::Colon)?;
            let else_ = self.parse_ternary()?;
            Ok(Expr::Ternary { cond: Box::new(cond), then: Box::new(then), else_: Box::new(else_) })
        } else {
            Ok(cond)
        }
    }

    fn parse_or(&mut self) -> (r: Result<Expr, ParseError>)
        requires old(self).inv(),
        ensures
            final(self).source() == old(self).source(),
            r matches Ok(x) ==> final(self).inv() && final(self).rem() < old(self).rem() && wf_expr(x),
            r matches Err(e) ==> error_positioned(e, old(self).source()),
            r matches Ok(x) ==> (binds_below(x, 2nat) ==> old(self).current.kind is LeftParen),
            r matches Ok(x) ==> ops_ok(x, old(self).source(), old(self).at(), final(self).at()),
        decreases old(self).rem(), 22nat,
    {
        let mut left = self.parse_bitor()?;
        while self.check(&TokenKind::PipePipe)
            invariant
                self.inv(),
                self.source() == old(self).source(),
                self.rem() < old(self).rem(),
                wf_expr(left),
                binds_below(left, 2nat) ==> old(self).current.kind is LeftParen,
                ops_ok(left, self.source(), old(self).at(), self.at()),
                old(self).inv(),
            decreases self.rem(),
        {
            let ghost head = *self;
            self.advance()?;
            let ghost pre = *self;
            let right = self.parse_bitor()?;
            proof {
                assert(head.rem() < old(self).rem());
                assert(pre.rem() <= head.rem());
                assert(self.rem() < pre.rem());
                assert(pre.source() == self.source());
                assert(old(self).at() <= pre.at() < self.at());
                if binds_below(right, 3nat) {
                    assert(pre.inv());
                    assert(paren_at(self.source(), pre.at()));
                }
                if binds_below(left, 2nat) {
                    assert(paren_at(self.source(), old(self).at()));
                }
            }
            left = Expr::Binary { op: BinOp::Or, left: Box::new(left), right: Box::new(right) };
        }
        Ok(left)
    }

    fn parse_bitor(&mut self) -> (r: Result<Expr, ParseError>)
        requires old(self).inv(),
        ensures
            final(self).source() == old(self).source(),
            r matches Ok(x) ==> final(self).inv() && final(self).rem() < old(self).rem() && wf_expr(x),
            r matches Err(e) ==> error_positioned(e, old(self).source()),
            r matches Ok(x) ==> (binds_below(x, 3nat) ==> old(self).current.kind is LeftParen),
            r matches Ok(x) ==> ops_ok(x, old(self).source(), old(self).at(), final(self).at()),
        decreases old(self).rem(), 20nat,
    {
        let mut left = self.parse_and()?;
        while self.check(&TokenKind::Pipe)
            invariant
                self.inv(),
                self.source() == old(self).source(),
                self.rem() < old(self).rem(),
                wf_expr(left),
                binds_below(left, 3nat) ==> old(self).current.kind is LeftParen,
                ops_ok(left, self.source(), old(self).at(), self.at()),
                old(self).inv(),
            decreases self.rem(),
        {
            let ghost head = *self;
            self.advance()?;
            let ghost pre = *self;
            let right = self.parse_and()?;
            proof {
                assert(head.rem() < old(self).rem());
                assert(pre.rem() <= head.rem());
                assert(self.rem() < pre.rem());
                assert(pre.source() == self.source());
                assert(old(self).at() <= pre.at() < self.at());
                if binds_below(right, 4nat) {
                    assert(pre.inv());
                    assert(paren_at(self.source(), pre.at()));
                }
                if binds_below(left, 3nat) {
                    assert(paren_at(self.source(), old(self).at()));
                }
            }
            left = Expr::Binary { op: BinOp::BitOr, left: Box::new(left), right: Box::new(right) };
        }
        Ok(left)
    }

    fn parse_and(&mut self) -> (r: Result<Expr, ParseError>)
        requires old(self).inv(),
        ensures
            final(self).source() == old(self).source(),
            r matches Ok(x) ==> final(self).inv() && final(self).rem() < old(self).rem() && wf_expr(x),
            r matches Err(e) ==> error_positioned(e, old(self).source()),
            r matches Ok(x) ==> (binds_below(x, 4nat) ==> old(self).current.kind is LeftParen),
            r matches Ok(x) ==> ops_ok(x, old(self).source(), old(self).at(), final(self).at()),
        decreases old(self).rem(), 18nat,
    {
        let mut left = self.parse_equality()?;
        while self.check(&TokenKind::AmpAmp)
            invariant
                self.inv(),
                self.source() == old(self).source(),
                self.rem() < old(self).rem(),
                wf_expr(left),
                binds_below(left, 4nat) ==> old(self).current.kind is LeftParen,
                ops_ok(left, self.source(), old(self).at(), self.at()),
                old(self).inv(),
            decreases self.rem(),
        {
            let ghost head = *self;
            self.advance()?;
            let ghost pre = *self;
            let right = self.parse_equality()?;
            proof {
                assert(head.rem() < old(self).rem());
                assert(pre.rem() <= head.rem());
                assert(self.rem() < pre.rem());
                assert(pre.source() == self.source());
                assert(old(self).at() <= pre.at() < self.at());
                if binds_below(right, 5nat) {
                    assert(pre.inv());
                    assert(paren_at(self.source(), pre.at()));
                }
                if binds_below(left, 4nat) {
                    assert(paren_at(self.source(), old(self).at()));
                }
            }
            left = Expr::Binary { op: BinOp::And, left: Box::new(left), right: Box::new(right) };
        }
        Ok(left)
    }

    fn parse_equality(&mut self) -> (r: Result<Expr, ParseError>)
        requires old(self).inv(),
        ensures
            final(self).source() == old(self).source(),
            r matches Ok(x) ==> final(self).inv() && final(self).rem() < old(self).rem() && wf_expr(x),
            r matches Err(e) ==> error_positioned(e, old(self).source()),
            r matches Ok(x) ==> (binds_below(x, 5nat) ==> old(self).current.kind is LeftParen),
            r matches Ok(x) ==> ops_ok(x, old(self).source(), old(self).at(), final(self).at()),
        decreases old(self).rem(), 16nat,
    {
        let mut left = self.parse_comparison()?;
        loop
            invariant
                self.inv(),
                self.source() == old(self).source(),
                self.rem() < old(self).rem(),
                wf_expr(left),
                binds_below(left, 5nat) ==> old(self).current.kind is LeftParen,
                ops_ok(left, self.source(), old(self).at(), self.at()),
                old(self).inv(),
            decreases self.rem(),
        {
            let op = match equality_op(&self.current.kind) {
                Some(op) => op,
                None => {
                    break;
                },
            };
            let ghost head = *self;
            self.advance()?;
            let ghost pre = *self;
            let right = self.parse_comparison()?;
            proof {
                assert(head.rem() < old(self).rem());
                assert(pre.rem() <= head.rem());
                assert(self.rem() < pre.rem());
                assert(pre.source() == self.source());
                assert(old(self).at() <= pre.at() < self.at());
                if binds_below(right, 6nat) {
                    assert(pre.inv());
                    assert(paren_at(self.source(), pre.at()));
                }
                if binds_below(left, 5nat) {
                    assert(paren_at(self.source(), old(self).at()));
                }
            }
            left = Expr::Binary { op, left: Box::new(left), right: Box::new(right) };
        }
        Ok(left)
    }

    fn parse_comparison(&mut self) -> (r: Result<Expr, ParseError>)
        requires old(self).inv(),
        ensures
            final(self).source() == old(self).source(),
            r matches Ok(x) ==> final(self).inv() && final(self).rem() < old(self).rem() && wf_expr(x),
            r matches Err(e) ==> error_positioned(e, old(self).source()),
            r matches Ok(x) ==> (binds_below(x, 6nat) ==> old(self).current.kind is LeftParen),
            r matches Ok(x) ==> ops_ok(x, old(self).source(), old(self).at(), final(self).at()),
        decreases old(self).rem(), 14nat,
    {
        let mut left = self.parse_additive()?;
        loop
            invariant
                self.inv(),
                self.source() == old(self).source(),
                self.rem() < old(self).rem(),
                wf_expr(left),
                binds_below(left, 6nat) ==> old(self).current.kind is LeftParen,
                ops_ok(left, self.source(), old(self).at(), self.at()),
                old(self).inv(),
            decreases self.rem(),
        {
            let op = match comparison_op(&self.current.kind) {
                Some(op) => op,
                None => {
                    break;
                },
            };
            let ghost head = *self;
            self.advance()?;
            let ghost pre = *self;
            let right = self.parse_additive()?;
            proof {
                assert(head.rem() < old(self).rem());
                assert(pre.rem() <= head.rem());
                assert(self.rem() < pre.rem());
                assert(pre.source() == self.source());
                assert(old(self).at() <= pre.at() < self.at());
                if binds_below(right, 7nat) {
                    assert(pre.inv());
                    assert(paren_at(self.source(), pre.at()));
                }
                if binds_below(left, 6nat) {
                    assert(paren_at(self.source(), old(self).at()));
                }
            }
            left = Expr::Binary { op, left: Box::new(left), right: Box::new(right) };
        }
        Ok(left)
    }

    fn parse_additive(&mut self) -> (r: Result<Expr, ParseError>)
        requires old(self).inv(),
        ensures
            final(self).source() == old(self).source(),
            r matches Ok(x) ==> final(self).inv() && final(self).rem() < old(self).rem() && wf_expr(x),
            r matches Err(e) ==> error_positioned(e, old(self).source()),
            r matches Ok(x) ==> (binds_below(x, 7nat) ==> old(self).current.kind is LeftParen),
            r matches Ok(x) ==> ops_ok(x, old(self).source(), old(self).at(), final(self).at()),
        decreases old(self).rem(), 12nat,
    {
        let mut left = self.parse_multiplicative()?;
        loop
            invariant
                self.inv(),
                self.source() == old(self).source(),
                self.rem() < old(self).rem(),
                wf_expr(left),
                binds_below(left, 7nat) ==> old(self).current.kind is LeftParen,
                ops_ok(left, self.source(), old(self).at(), self.at()),
                old(self).inv(),
            decreases self.rem(),
        {
            let op = match additive_op(&self.current.kind) {
                Some(op) => op,
                None => {
                    break;
                },
            };
            let ghost head = *self;
            self.advance()?;
            let ghost pre = *self;
            let right = self.parse_multiplicative()?;
            proof {
                assert(head.rem() < old(self).rem());
                assert(pre.rem() <= head.rem());
                assert(self.rem() < pre.rem());
                assert(pre.source() == self.source());
                assert(old(self).at() <= pre.at() < self.at());
                if binds_below(right, 8nat) {
                    assert(pre.inv());
                    assert(paren_at(self.source(), pre.at()));
                }
                if binds_below(left, 7nat) {
                    assert(paren_at(self.source(), old(self).at()));
                }
            }
            left = Expr::Binary { op, left: Box::new(left), right: Box::new(right) };
        }
        Ok(left)
    }

    fn parse_multiplicative(&mut self) -> (r: Result<Expr, ParseError>)
        requires old(self).inv(),
        ensures
            final(self).source() == old(self).source(),
            r matches Ok(x) ==> final(self).inv() && final(self).rem() < old(self).rem() && wf_expr(x),
            r matches Err(e) ==> error_positioned(e, old(self).source()),
            r matches Ok(x) ==> (binds_below(x, 8nat) ==> old(self).current.kind is LeftParen),
            r matches Ok(x) ==> ops_ok(x, old(self).source(), old(self).at(), final(self).at()),
        decreases old(self).rem(), 10nat,
    {
        let mut left = self.parse_unary()?;
        loop
            invariant
                self.inv(),
                self.source() == old(self).source(),
                self.rem() < old(self).rem(),
                wf_expr(left),
                binds_below(left, 8nat) ==> old(self).current.kind is LeftParen,
                ops_ok(left, self.source(), old(self).at(), self.at()),
                old(self).inv(),
            decreases self.rem(),
        {
            let op = match multiplicative_op(&self.current.kind) {
                Some(op) => op,
                None => {
                    break;
                },
            };
            let ghost head = *self;
            self.advance()?;
            let ghost pre = *self;
            let right = self.parse_unary()?;
            proof {
                assert(head.rem() < old(self).rem());
                assert(pre.rem() <= head.rem());
                assert(self.rem() < pre.rem());
                assert(pre.source() == self.source());
                assert(old(self).at() <= pre.at() < self.at());
                if binds_below(right, 9nat) {
                    assert(pre.inv());
                    assert(paren_at(self.source(), pre.at()));
                }
                if binds_below(left, 8nat) {
                    assert(paren_at(self.source(), old(self).at()));
                }
            }
            left = Expr::Binary { op, left: Box::new(left), right: Box::new(right) };
        }
        Ok(left)
    }

    fn parse_unary(&mut self) -> (r: Result<Expr, ParseError>)
        requires old(self).inv(),
        ensures
            final(self).source() == old(self).source(),
            r matches Ok(x) ==> final(self).inv() && final(self).rem() < old(self).rem() && wf_expr(x),
            r matches Err(e) ==> error_positioned(e, old(self).source()),
            r matches Ok(x) ==> (x is Binary ==> old(self).current.kind is LeftParen),
        decreases old(self).rem(), 8nat,
    {
        if self.check(&TokenKind::Minus) {
            self.advance()?;
            let expr = self.parse_unary()?;
            Ok(Expr::Unary { op: UnOp::Neg, expr: Box::new(expr) })
        } else if self.check(&TokenKind::Bang) {
            self.advance()?;
            let expr = self.parse_unary()?;
            Ok(Expr::Unary { op: UnOp::Not, expr: Box::new(expr) })
        } else {
            self.parse_postfix()
        }
    }

    /// Member access, `x++`/`x--`, calls and `a[i]` (which reads `a.get(i)`).
    fn parse_postfix(&mut self) -> (r: Result<Expr, ParseError>)
        requires old(self).inv(),
        ensures
            final(self).source() == old(self).source(),
            r matches Ok(x) ==> final(self).inv() && final(self).rem() < old(self).rem() && wf_expr(x),
            r matches Err(e) ==> error_positioned(e, old(self).source()),
            r matches Ok(x) ==> (x is Binary ==> old(self).current.kind is LeftParen),
        decreases old(self).rem(), 6nat,
    {
        let mut expr = self.parse_primary()?;
        loop
            invariant
                self.inv(),
                self.source() == old(self).source(),
                self.rem() < old(self).rem(),
                wf_expr(expr),
                expr is Binary ==> old(self).current.kind is LeftParen,
            decreases self.rem(),
        {
            if self.check(&TokenKind::Dot) {
                self.advance()?;
                let prop = self.expect_ident()?;
                expr = Expr::Member { base: Box::new(expr), prop };
            } else if self.check(&TokenKind::PlusPlus) || self.check(&TokenKind::MinusMinus) {
                let op = if self.check(&TokenKind::PlusPlus) { UpdateOp::Inc } else { UpdateOp::Dec };
                if !is_assignable(&expr) {
                    return Err(self.err("update target must be an identifier or a member access"));
                }
                self.advance()?;
                expr = Expr::Update { op, target: Box::new(expr), prefix: false };
            } else if self.check(&TokenKind::LeftParen) {
                if self.looks_like_arrow() {
                    // `callee((params) => body)`: the arrow is the sole argument.
                    self.advance()?;
                    let params = self.parse_arrow_params()?;
                    self.expect(TokenKind::Arrow)?;
                    let body = self.parse_arrow_body()?;
                    let f = Expr::Arrow { params, body: Box::new(body), async_: false };
                    assert(wf_expr(f));
                    let arrow = CallArg::Expr(f);
                    let mut args: Vec<CallArg> = Vec::new();
                    proof { lemma_push_call_args(args@, arrow); }
                    args.push(arrow);
                    expr = Expr::Call { callee: Box::new(expr), args };
                    self.expect(TokenKind::RightParen)?;
                } else {
                    let args = self.parse_call_args()?;
                    expr = Expr::Call { callee: Box::new(expr), args };
                }
            } else if self.check(&TokenKind::LeftBracket) {
                self.advance()?;
                let idx = self.parse_expr()?;
                self.expect(TokenKind::RightBracket)?;
                let arg = CallArg::Expr(idx);
                let mut args: Vec<CallArg> = Vec::new();
                proof { lemma_push_call_args(args@, arg); }
                args.push(arg);
                let callee = Expr::Member { base: Box::new(expr), prop: owned("get") };
                assert(wf_expr(callee));
                expr = Expr::Call { callee: Box::new(callee), args };
            } else {
                break;
            }
        }
        Ok(expr)
    }

    /// `(args...)` with `...spread` and a trailing comma; consumes both parens.
    fn parse_call_args(&mut self) -> (r: Result<Vec<CallArg>, ParseError>)
        requires old(self).inv(),
        ensures
            final(self).source() == old(self).source(),
            r matches Ok(a) ==> final(self).inv() && final(self).rem() < old(self).rem() && wf_call_args(a@),
            r matches Err(e) ==> error_positioned(e, old(self).source()),
        decreases old(self).rem(), 2nat,
    {
        self.expect(TokenKind::LeftParen)?;
        let mut args: Vec<CallArg> = Vec::new();
        if !self.check(&TokenKind::RightParen) {
            let a = self.parse_call_arg()?;
            proof { lemma_push_call_args(args@, a); }
            args.push(a);
            while self.check(&TokenKind::Comma)
            invariant
                self.inv(),
                self.source() == old(self).source(),
                self.rem() < old(self).rem(),
                wf_call_args(args@),
                decreases self.rem(),
            {
                self.advance()?;
                if self.check(&TokenKind::RightParen) {
                    break;
                }
                let a = self.parse_call_arg()?;
                proof { lemma_push_call_args(args@, a); }
                args.push(a);
            }
        }
        self.expect(TokenKind::RightParen)?;
        Ok(args)
    }

    fn parse_call_arg(&mut self) -> (r: Result<CallArg, ParseError>)
        requires old(self).inv(),
        ensures
            final(self).source() == old(self).source(),
            r matches Ok(a) ==> final(self).inv() && final(self).rem() < old(self).rem() && wf_call_arg(a),
            r matches Err(e) ==> error_positioned(e, old(self).source()),
        decreases old(self).rem(), 32nat,
    {
        if self.check(&TokenKind::DotDotDot) {
            self.advance()?;
            Ok(CallArg::Spread(self.parse_expr()?))
        } else {
            Ok(CallArg::Expr(self.parse_expr()?))
        }
    }

    fn parse_primary(&mut self) -> (r: Result<Expr, ParseError>)
        requires old(self).inv(),
        ensures
            final(self).source() == old(self).source(),
            r matches Ok(x) ==> final(self).inv() && final(self).rem() < old(self).rem() && wf_expr(x),
            r matches Err(e) ==> error_positioned(e, old(self).source()),
            r matches Ok(x) ==> (x is Binary ==> old(self).current.kind is LeftParen),
        decreases old(self).rem(), 4nat,
    {
        match &self.current.kind {
            TokenKind::Int(i) => {
                let v = *i;
                self.advance()?;
                Ok(Expr::Literal(Literal::Int(v)))
            },
            TokenKind::Float(f) => {
                let v = f.clone();
                self.advance()?;
                Ok(Expr::Literal(Literal::Float(v)))
            },
            TokenKind::String(s) => {
                let v = s.clone();
                self.advance()?;
                Ok(Expr::Literal(Literal::String(v)))
            },
            TokenKind::TemplateStart => self.parse_template(),
            TokenKind::LeftBrace => self.parse_object(),
            TokenKind::LeftParen => {
                if self.looks_like_arrow() {
                    self.advance()?;
                    let params = self.parse_arrow_params()?;
                    self.expect(TokenKind::Arrow)?;
                    let body = self.parse_arrow_body()?;
                    Ok(Expr::Arrow { params, body: Box::new(body), async_: false })
                } else {
                    self.advance()?;
                    let e = self.parse_expr()?;
                    self.expect(TokenKind::RightParen)?;
                    Ok(e)
                }
            },
            TokenKind::Ident(name) => {
                let n = name.clone();
                self.parse_word(n)
            },
            TokenKind::LeftBracket => self.parse_array(),
            TokenKind::Lt => self.parse_element(),
            _ => {
                let mut m: Vec<char> = Vec::new();
                push_str(&mut m, "unexpected ");
                let d = self.current.kind.describe();
                push_str(&mut m, d.as_str());
                push_str(&mut m, " in expression");
                Err(self.err_string(string_from_chars(&m)))
            },
        }
    }

    /// A primary expression that starts with the identifier `name` (the
    /// current token): a literal keyword, a keyword form (`new`, `await`,
    /// `yield`, `throw`, `try`, `function`, `if`, `import(...)`), an arrow
    /// `x => ...` / `async ... => ...`, or a plain identifier.
    fn parse_word(&mut self, name: String) -> (r: Result<Expr, ParseError>)
        requires old(self).inv(), old(self).current.kind == TokenKind::Ident(name),
        ensures
            final(self).source() == old(self).source(),
            r matches Ok(x) ==> final(self).inv() && final(self).rem() < old(self).rem() && wf_expr(x),
            r matches Err(e) ==> error_positioned(e, old(self).source()),
            r matches Ok(x) ==> !(x is Binary),
        decreases old(self).rem(), 3nat,
    {
        let w = name.as_str();
        if str_eq(w, "true") {
            self.advance()?;
            return Ok(Expr::Literal(Literal::Bool(true)));
        }
        if str_eq(w, "false") {
            self.advance()?;
            return Ok(Expr::Literal(Literal::Bool(false)));
        }
        if str_eq(w, "new") {
            self.advance()?;
            let callee = self.expect_ident()?;
            let args = self.parse_call_args()?;
            let c = Expr::Ident { name: callee, is_component: false };
            assert(wf_expr(c));
            return Ok(Expr::New { callee: Box::new(c), args });
        }
        if str_eq(w, "null") {
            self.advance()?;
            return Ok(Expr::Literal(Literal::Null));
        }
        if arrow_param_name(w) && self.arrow_after_ident() {
            self.advance()?;
            self.expect(TokenKind::Arrow)?;
            let body = self.parse_arrow_body()?;
            let p = plain_param(name);
            let mut params: Vec<Param> = Vec::new();
            proof { lemma_push_params(params@, p); }
            params.push(p);
            return Ok(Expr::Arrow { params, body: Box::new(body), async_: false });
        }
        if str_eq(w, "async") && self.looks_like_async_arrow() {
            self.advance()?;
            let params = if self.check(&TokenKind::LeftParen) {
                self.advance()?;
                let ps = self.parse_arrow_params_inner()?;
                self.expect(TokenKind::RightParen)?;
                ps
            } else {
                let n = self.expect_ident()?;
                let p = plain_param(n);
                let mut ps: Vec<Param> = Vec::new();
                proof { lemma_push_params(ps@, p); }
                ps.push(p);
                ps
            };
            self.expect(TokenKind::Arrow)?;
            let body = self.parse_arrow_body()?;
            return Ok(Expr::Arrow { params, body: Box::new(body), async_: true });
        }
        if str_eq(w, "await") {
            self.advance()?;
            let value = self.parse_expr()?;
            return Ok(Expr::Await { value: Box::new(value), from_return: false });
        }
        if str_eq(w, "yield") {
            self.advance()?;
            let value = if self.check(&TokenKind::Semicolon) || self.check(&TokenKind::RightBrace)
                || self.at_eof() {
                None
            } else {
                Some(Box::new(self.parse_expr()?))
            };
            return Ok(Expr::Yield { value, from_return: false });
        }
        if str_eq(w, "throw") {
            self.advance()?;
            let value = self.parse_expr()?;
            return Ok(Expr::Throw(Box::new(value)));
        }
        if str_eq(w, "try") {
            return self.parse_try();
        }
        if str_eq(w, "function") {
            self.advance()?;
            let fname = match &self.current.kind {
                TokenKind::Ident(_) => Some(self.expect_ident()?),
                _ => None,
            };
            let params = self.parse_param_patterns()?;
            let body = self.parse_stmt_block()?;
            return Ok(Expr::Function { name: fname, params, body });
        }
        if str_eq(w, "if") {
            self.advance()?;
            let cond = self.parse_expr()?;
            self.expect(TokenKind::LeftBrace)?;
            let then = self.parse_expr()?;
            self.expect(TokenKind::RightBrace)?;
            if !self.is_kw("else") {
                return Err(self.err("expected `else` after `if` block"));
            }
            self.advance()?;
            self.expect(TokenKind::LeftBrace)?;
            let else_ = self.parse_expr()?;
            self.expect(TokenKind::RightBrace)?;
            return Ok(Expr::Ternary { cond: Box::new(cond), then: Box::new(then), else_: Box::new(else_) });
        }
        if str_eq(w, "import") {
            let mut probe = self.lexer.duplicate();
            let is_call = match probe.next_token() {
                Ok(t) => t.kind.same(&TokenKind::LeftParen),
                Err(_) => false,
            };
            if is_call {
                self.advance()?;
                self.expect(TokenKind::LeftParen)?;
                let specifier = match &self.current.kind {
                    TokenKind::String(s) => s.clone(),
                    _ => {
                        return Err(self.err("dynamic import specifier must be a string literal"));
                    },
                };
                self.advance()?;
                self.expect(TokenKind::RightParen)?;
                return Ok(Expr::DynImport { specifier });
            }
            self.advance()?;
            return Ok(Expr::Ident { name: owned("import"), is_component: false });
        }
        let is_component = starts_upper(w);
        self.advance()?;
        Ok(Expr::Ident { name, is_component })
    }

    /// Arrow parameters after the `(` was consumed; consumes the `)`.
    fn parse_arrow_params(&mut self) -> (r: Result<Vec<Param>, ParseError>)
        requires old(self).inv(),
        ensures
            final(self).source() == old(self).source(),
            r matches Ok(ps) ==> final(self).inv() && final(self).rem() < old(self).rem() && wf_params(ps@),
            r matches Err(e) ==> error_positioned(e, old(self).source()),
        decreases old(self).rem(), 10nat,
    {
        let mut params: Vec<Param> = Vec::new();
        if !self.check(&TokenKind::RightParen) {
            let p = self.parse_param()?;
            proof { lemma_push_params(params@, p); }
            params.push(p);
            while self.check(&TokenKind::Comma)
            invariant
                self.inv(),
                self.source() == old(self).source(),
                self.rem() < old(self).rem(),
                wf_params(params@),
                decreases self.rem(),
            {
                self.advance()?;
                if self.check(&TokenKind::RightParen) {
                    break;
                }
                let p = self.parse_param()?;
                proof { lemma_push_params(params@, p); }
                params.push(p);
            }
        }
        self.expect(TokenKind::RightParen)?;
        Ok(params)
    }

    /// Arrow parameters after the `(` was consumed; leaves the `)`.
    fn parse_arrow_params_inner(&mut self) -> (r: Result<Vec<Param>, ParseError>)
        requires old(self).inv(),
        ensures
            final(self).source() == old(self).source(),
            r matches Ok(ps) ==> final(self).inv() && final(self).rem() <= old(self).rem() && wf_params(ps@),
            r matches Ok(ps) ==> (ps@.len() == 0 <==> old(self).current.kind is RightParen)
                && (final(self).current.kind is RightParen || !(final(self).current.kind is Comma)),
            r matches Err(e) ==> error_positioned(e, old(self).source()),
        decreases old(self).rem(), 10nat,
    {
        let mut params: Vec<Param> = Vec::new();
        if !self.check(&TokenKind::RightParen) {
            let p = self.parse_param()?;
            proof { lemma_push_params(params@, p); }
            params.push(p);
            while self.check(&TokenKind::Comma)
                invariant
                    self.inv(),
                    self.source() == old(self).source(),
                    self.rem() <= old(self).rem(),
                    wf_params(params@),
                    params@.len() > 0,
                ensures
                    self.inv(),
                    self.source() == old(self).source(),
                    self.rem() <= old(self).rem(),
                    wf_params(params@),
                    params@.len() > 0,
                    self.current.kind is RightParen || !(self.current.kind is Comma),
                decreases self.rem(),
            {
                self.advance()?;
                if self.check(&TokenKind::RightParen) {
                    break;
                }
                let p = self.parse_param()?;
                proof { lemma_push_params(params@, p); }
                params.push(p);
            }
        }
        Ok(params)
    }

    /// Whether the current identifier is immediately followed by `=>`.
    fn arrow_after_ident(&self) -> (r: bool)
        requires self.inv(),
        ensures r == arrow_next(self.source(), self.lexer.cursor()),
    {
        let mut l = self.lexer.duplicate();
        proof { l.lemma_bounds(); }
        match l.next_token() {
            Ok(t) => {
                let a = t.kind.same(&TokenKind::Arrow);
                proof {
                    if a {
                        l.lemma_bounds();
                        lemma_arrow_lexeme(self.source(), t.index as int, l.cursor());
                    }
                }
                a
            },
            Err(_) => false,
        }
    }

    /// Whether the current `(` opens an arrow's parameter list: the tokens up
    /// to the matching `)` are all pattern tokens (identifiers, literals,
    /// `, ... = :` and balanced brackets), and `=>` follows that `)`.
    fn looks_like_arrow(&self) -> (r: bool)
        requires self.inv(),
        ensures
            r ==> exists|c: int| self.lexer.cursor() <= c <= self.source().len()
                && #[trigger] arrow_next(self.source(), c),
    {
        let mut l = self.lexer.duplicate();
        proof { l.lemma_bounds(); }
        let mut depth: usize = 0;
        loop
            invariant
                l.wf(),
                !l.has_pending(),
                l.text() == self.source(),
                depth <= l.cursor(),
                self.lexer.cursor() <= l.cursor() <= l.text().len(),
            decreases l.text().len() - l.cursor(),
        {
            proof { l.lemma_bounds(); }
            let tok = match l.next_token() {
                Ok(t) => t,
                Err(_) => {
                    return false;
                },
            };
            proof { l.lemma_bounds(); }
            match &tok.kind {
                TokenKind::LeftParen => {
                    depth = depth + 1;
                },
                TokenKind::LeftBrace => {
                    depth = depth + 1;
                },
                TokenKind::LeftBracket => {
                    depth = depth + 1;
                },
                TokenKind::RightParen => {
                    if depth == 0 {
                        let ghost c = l.cursor();
                        return match l.next_token() {
                            Ok(t) => {
                                let a = t.kind.same(&TokenKind::Arrow);
                                proof {
                                    if a {
                                        l.lemma_bounds();
                                        lemma_arrow_lexeme(self.source(), t.index as int, l.cursor());
                                        assert(arrow_next(self.source(), c));
                                    }
                                }
                                a
                            },
                            Err(_) => false,
                        };
                    }
                    depth = depth - 1;
                },
                TokenKind::RightBrace => {
                    if depth == 0 {
                        return false;
                    }
                    depth = depth - 1;
                },
                TokenKind::RightBracket => {
                    if depth == 0 {
                        return false;
                    }
                    depth = depth - 1;
                },
                TokenKind::Ident(_) => {},
                TokenKind::Comma => {},
                TokenKind::DotDotDot => {},
                TokenKind::Equals => {},
                TokenKind::Colon => {},
                TokenKind::Int(_) => {},
                TokenKind::Float(_) => {},
                TokenKind::String(_) => {},
                _ => {
                    return false;
                },
            }
        }
    }

    /// Whether `async` here begins an async arrow: `async (params) =>` or
    /// `async x =>`. A scan error or the end of input means it does not.
    fn looks_like_async_arrow(&self) -> (r: bool)
        requires self.inv(),
        ensures
            r ==> exists|c: int| self.lexer.cursor() <= c <= self.source().len()
                && #[trigger] arrow_next(self.source(), c),
    {
        let mut l = self.lexer.duplicate();
        let first = match l.next_token() {
            Ok(t) => t,
            Err(_) => {
                return false;
            },
        };
        match &first.kind {
            TokenKind::LeftParen => {
                proof { l.lemma_bounds(); }
                let mut depth: usize = 1;
                loop
                    invariant
                        l.wf(),
                        !l.has_pending(),
                        l.text() == self.source(),
                        1 <= depth <= l.cursor(),
                        self.lexer.cursor() <= l.cursor() <= l.text().len(),
                    decreases l.text().len() - l.cursor(),
                {
                    proof { l.lemma_bounds(); }
                    let t = match l.next_token() {
                        Ok(t) => t,
                        Err(_) => {
                            return false;
                        },
                    };
                    proof { l.lemma_bounds(); }
                    match &t.kind {
                        TokenKind::LeftParen => {
                            depth = depth + 1;
                        },
                        TokenKind::RightParen => {
                            if depth == 1 {
                                break;
                            }
                            depth = depth - 1;
                        },
                        TokenKind::Eof => {
                            return false;
                        },
                        _ => {},
                    }
                }
                let ghost c = l.cursor();
                match l.next_token() {
                    Ok(t) => {
                        let a = t.kind.same(&TokenKind::Arrow);
                        proof {
                            if a {
                                l.lemma_bounds();
                                lemma_arrow_lexeme(self.source(), t.index as int, l.cursor());
                                assert(arrow_next(self.source(), c));
                            }
                        }
                        a
                    },
                    Err(_) => false,
                }
            },
            TokenKind::Ident(_) => {
                let ghost c = l.cursor();
                proof { l.lemma_bounds(); }
                match l.next_token() {
                    Ok(t) => {
                        let a = t.kind.same(&TokenKind::Arrow);
                        proof {
                            if a {
                                l.lemma_bounds();
                                lemma_arrow_lexeme(self.source(), t.index as int, l.cursor());
                                assert(arrow_next(self.source(), c));
                            }
                        }
                        a
                    },
                    Err(_) => false,
                }
            },
            _ => false,
        }
    }

    /// An arrow body: a single expression, or a `{ ... }` block of
    /// statements whose value is its last expression (a `return e` ends the
    /// block with `e` as its value).
    fn parse_arrow_body(&mut self) -> (r: Result<Expr, ParseError>)
        requires old(self).inv(),
        ensures
            final(self).source() == old(self).source(),
            r matches Ok(x) ==> final(self).inv() && final(self).rem() < old(self).rem() && wf_expr(x),
            r matches Err(e) ==> error_positioned(e, old(self).source()),
        decreases old(self).rem(), 32nat,
    {
        if !self.check(&TokenKind::LeftBrace) {
            return self.parse_expr();
        }
        self.advance()?;
        let mut stmts: Vec<Expr> = Vec::new();
        while !self.check(&TokenKind::RightBrace) && !self.at_eof()
            invariant
                self.inv(),
                self.source() == old(self).source(),
                self.rem() < old(self).rem(),
                wf_exprs(stmts@),
            decreases self.rem(),
        {
            if self.is_kw("return") {
                self.advance()?;
                let v = self.parse_expr()?;
                let v = mark_from_return(v);
                proof { lemma_push_exprs(stmts@, v); }
                stmts.push(v);
                if self.check(&TokenKind::Semicolon) {
                    self.advance()?;
                }
                break;
            }
            if self.is_kw("if") || self.is_kw("while") || self.is_kw("for") || self.is_kw("switch")
                || self.is_kw("break") || self.is_kw("continue") {
                let st = self.parse_stmt()?;
                let x = stmt_to_block_expr(&st);
                proof { lemma_push_exprs(stmts@, x); }
                stmts.push(x);
                continue;
            }
            if self.is_kw("let") || self.is_kw("const") {
                self.advance()?;
                let (pattern, value) = self.parse_binding()?;
                if self.check(&TokenKind::Semicolon) {
                    self.advance()?;
                }
                let x = lower_binding_to_assign(pattern, value);
                proof { lemma_push_exprs(stmts@, x); }
                stmts.push(x);
                continue;
            }
            let x = self.parse_expr()?;
            proof { lemma_push_exprs(stmts@, x); }
            stmts.push(x);
            if self.check(&TokenKind::Semicolon) {
                self.advance()?;
            }
        }
        self.expect(TokenKind::RightBrace)?;
        Ok(Expr::Block(stmts))
    }

    /// `{ stmts }` as statement-level expressions (the body of a `try`,
    /// `catch` or `finally` block); consumes both braces. A `return` ends
    /// the block and raises function-return control flow.
    fn parse_block_stmts(&mut self) -> (r: Result<Vec<Expr>, ParseError>)
        requires old(self).inv(),
        ensures
            final(self).source() == old(self).source(),
            r matches Ok(xs) ==> final(self).inv() && final(self).rem() < old(self).rem() && wf_exprs(xs@),
            r matches Err(e) ==> error_positioned(e, old(self).source()),
        decreases old(self).rem(), 2nat,
    {
        self.expect(TokenKind::LeftBrace)?;
        let mut stmts: Vec<Expr> = Vec::new();
        while !self.check(&TokenKind::RightBrace) && !self.at_eof()
            invariant
                self.inv(),
                self.source() == old(self).source(),
                self.rem() < old(self).rem(),
                wf_exprs(stmts@),
            decreases self.rem(),
        {
            if self.is_kw("return") {
                self.advance()?;
                if self.check(&TokenKind::Semicolon) {
                    self.advance()?;
                    let x = Expr::Return(None);
                    proof { lemma_push_exprs(stmts@, x); }
                    stmts.push(x);
                    break;
                }
                let v = self.parse_expr()?;
                let x = match v {
                    Expr::Await { value, .. } => Expr::Await { value, from_return: true },
                    Expr::Yield { value, .. } => Expr::Yield { value, from_return: true },
                    other => Expr::Return(Some(Box::new(other))),
                };
                proof { lemma_push_exprs(stmts@, x); }
                stmts.push(x);
                if self.check(&TokenKind::Semicolon) {
                    self.advance()?;
                }
                break;
            }
            if self.is_kw("if") || self.is_kw("while") || self.is_kw("for") || self.is_kw("switch")
                || self.is_kw("break") || self.is_kw("continue") {
                let st = self.parse_stmt()?;
                let x = stmt_to_block_expr(&st);
                proof { lemma_push_exprs(stmts@, x); }
                stmts.push(x);
                continue;
            }
            if self.is_kw("let") || self.is_kw("const") {
                self.advance()?;
                let (pattern, value) = self.parse_binding()?;
                if self.check(&TokenKind::Semicolon) {
                    self.advance()?;
                }
                let x = lower_binding_to_assign(pattern, value);
                proof { lemma_push_exprs(stmts@, x); }
                stmts.push(x);
                continue;
            }
            let x = self.parse_expr()?;
            proof { lemma_push_exprs(stmts@, x); }
            stmts.push(x);
            if self.check(&TokenKind::Semicolon) {
                self.advance()?;
            }
        }
        self.expect(TokenKind::RightBrace)?;
        Ok(stmts)
    }

    /// `try { } catch (e) { } finally { }`: at least one of `catch` and
    /// `finally` must be present.
    fn parse_try(&mut self) -> (r: Result<Expr, ParseError>)
        requires old(self).inv(), old(self).current.kind is Ident,
        ensures
            final(self).source() == old(self).source(),
            r matches Ok(x) ==> final(self).inv() && final(self).rem() < old(self).rem() && wf_expr(x),
            r matches Err(e) ==> error_positioned(e, old(self).source()),
            r matches Ok(x) ==> x is Try,
        decreases old(self).rem(), 2nat,
    {
        self.advance()?;
        let block = self.parse_block_stmts()?;
        let mut catch_param: Option<String> = None;
        let mut catch: Option<Vec<Expr>> = None;
        let mut finally: Option<Vec<Expr>> = None;
        if self.is_kw("catch") {
            self.advance()?;
            if self.check(&TokenKind::LeftParen) {
                self.advance()?;
                catch_param = Some(self.expect_ident()?);
                self.expect(TokenKind::RightParen)?;
            }
            catch = Some(self.parse_block_stmts()?);
        }
        if self.is_kw("finally") {
            self.advance()?;
            finally = Some(self.parse_block_stmts()?);
        }
        if catch.is_none() && finally.is_none() {
            return Err(self.err("try requires a catch or finally block"));
        }
        Ok(Expr::Try { block, catch_param, catch, finally })
    }

    fn parse_array(&mut self) -> (r: Result<Expr, ParseError>)
        requires old(self).inv(),
        ensures
            final(self).source() == old(self).source(),
            r matches Ok(x) ==> final(self).inv() && final(self).rem() < old(self).rem() && wf_expr(x) && x is Array,
            r matches Err(e) ==> error_positioned(e, old(self).source()),
        decreases old(self).rem(), 2nat,
    {
        self.expect(TokenKind::LeftBracket)?;
        let mut items: Vec<ArrayItem> = Vec::new();
        assert(wf_array_items(items@));
        if !self.check(&TokenKind::RightBracket) {
            let it = self.parse_array_item()?;
            proof { lemma_push_array_items(items@, it); }
            items.push(it);
            while self.check(&TokenKind::Comma)
            invariant
                self.inv(),
                self.source() == old(self).source(),
                self.rem() < old(self).rem(),
                wf_array_items(items@),
                decreases self.rem(),
            {
                self.advance()?;
                if self.check(&TokenKind::RightBracket) {
                    break;
                }
                let it = self.parse_array_item()?;
                proof { lemma_push_array_items(items@, it); }
                items.push(it);
            }
        }
        self.expect(TokenKind::RightBracket)?;
        Ok(Expr::Array(items))
    }

    fn parse_array_item(&mut self) -> (r: Result<ArrayItem, ParseError>)
        requires old(self).inv(),
        ensures
            final(self).source() == old(self).source(),
            r matches Ok(a) ==> final(self).inv() && final(self).rem() < old(self).rem() && wf_array_item(a),
            r matches Err(e) ==> error_positioned(e, old(self).source()),
        decreases old(self).rem(), 32nat,
    {
        if self.check(&TokenKind::DotDotDot) {
            self.advance()?;
            Ok(ArrayItem::Spread(self.parse_expr()?))
        } else {
            Ok(ArrayItem::Expr(self.parse_expr()?))
        }
    }

    /// `{key: value, shorthand, ...spread}`; keys are identifiers or strings.
    fn parse_object(&mut self) -> (r: Result<Expr, ParseError>)
        requires old(self).inv(),
        ensures
            final(self).source() == old(self).source(),
            r matches Ok(x) ==> final(self).inv() && final(self).rem() < old(self).rem() && wf_expr(x) && x is Object,
            r matches Err(e) ==> error_positioned(e, old(self).source()),
        decreases old(self).rem(), 2nat,
    {
        self.expect(TokenKind::LeftBrace)?;
        let mut items: Vec<ObjectItem> = Vec::new();
        while !self.check(&TokenKind::RightBrace)
            invariant
                self.inv(),
                self.source() == old(self).source(),
                self.rem() < old(self).rem(),
                wf_object_items(items@),
            decreases self.rem(),
        {
            if self.check(&TokenKind::DotDotDot) {
                self.advance()?;
                let it = ObjectItem::Spread(self.parse_expr()?);
                proof { lemma_push_object_items(items@, it); }
                items.push(it);
            } else {
                let key = match &self.current.kind {
                    TokenKind::String(s) => {
                        let k = s.clone();
                        self.advance()?;
                        k
                    },
                    _ => self.expect_ident()?,
                };
                let it = if self.check(&TokenKind::Colon) {
                    self.advance()?;
                    ObjectItem::Prop(key, self.parse_expr()?)
                } else {
                    ObjectItem::Shorthand(key)
                };
                proof { lemma_push_object_items(items@, it); }
                items.push(it);
            }
            if self.check(&TokenKind::Comma) {
                self.advance()?;
                if self.check(&TokenKind::RightBrace) {
                    break;
                }
            } else {
                break;
            }
        }
        self.expect(TokenKind::RightBrace)?;
        Ok(Expr::Object(items))
    }

    /// A template literal; the current token is its opening backtick. Text
    /// chunks are read straight from the lexer; after each `${` an
    /// interpolated expression runs up to its closing `}`.
    fn parse_template(&mut self) -> (r: Result<Expr, ParseError>)
        requires old(self).inv(), old(self).current.kind is TemplateStart,
        ensures
            final(self).source() == old(self).source(),
            r matches Ok(x) ==> final(self).inv() && final(self).rem() < old(self).rem() && wf_expr(x) && x is Template,
            r matches Err(e) ==> error_positioned(e, old(self).source()),
        decreases old(self).rem(), 2nat,
    {
        let mut parts: Vec<String> = Vec::new();
        let mut exprs: Vec<Expr> = Vec::new();
        loop
            invariant_except_break
                self.inv(),
                self.source() == old(self).source(),
                self.rem() <= old(self).rem(),
                !(self.current.kind is Eof),
                parts@.len() == exprs@.len(),
                wf_exprs(exprs@),
            ensures
                self.inv(),
                self.source() == old(self).source(),
                self.rem() < old(self).rem(),
                parts@.len() == exprs@.len() + 1,
                wf_exprs(exprs@),
            decreases self.rem(),
        {
            let chunk = self.lexer.lex_template_chunk()?;
            match chunk.kind {
                TokenKind::TemplateText(text) => {
                    parts.push(text);
                    if self.lexer.pending_end() {
                        let end = self.lexer.next_token()?;
                        self.current = end;
                        self.advance()?;
                        break;
                    }
                    let ghost had = self.lexer.has_pending();
                    let ghost l0 = self.lexer;
                    let t = self.lexer.next_token()?;
                    proof {
                        self.lexer.lemma_bounds();
                        if had {
                            l0.lemma_pending_kind();
                        } else if t.kind is LeftParen {
                            lemma_paren_lexeme(self.lexer.text(), t.index as int, self.lexer.cursor());
                        }
                    }
                    self.current = t;
                    let e = self.parse_expr()?;
                    if !self.check(&TokenKind::RightBrace) {
                        return Err(self.err("expected `}` to close `${...}`"));
                    }
                    self.lexer.exit_template_expr();
                    proof { lemma_push_exprs(exprs@, e); }
                    exprs.push(e);
                },
                TokenKind::TemplateEnd => {
                    parts.push(String::new());
                    self.current = Token { kind: TokenKind::TemplateEnd, line: chunk.line, column: chunk.column, offset: chunk.offset, index: chunk.index };
                    self.advance()?;
                    break;
                },
                _ => {
                    return Err(self.err("expected template text or end of template"));
                },
            }
        }
        Ok(Expr::Template { parts, exprs })
    }

    /// A JSX element `<tag attrs>children</tag>`, a self-closing `<tag/>` or
    /// a fragment `<>children</>`.
    fn parse_element(&mut self) -> (r: Result<Expr, ParseError>)
        requires old(self).inv(),
        ensures
            final(self).source() == old(self).source(),
            r matches Ok(x) ==> final(self).inv() && final(self).rem() < old(self).rem() && wf_expr(x) && x is Element,
            r matches Err(e) ==> error_positioned(e, old(self).source()),
        decreases old(self).rem(), 2nat,
    {
        self.expect(TokenKind::Lt)?;
        let is_fragment = self.check(&TokenKind::Gt);
        let mut tag: String = if is_fragment { String::new() } else { self.expect_ident()? };
        if !is_fragment && self.check(&TokenKind::Dot) {
            self.advance()?;
            let member = self.expect_ident()?;
            let mut t: Vec<char> = Vec::new();
            push_str(&mut t, tag.as_str());
            t.push('.');
            push_str(&mut t, member.as_str());
            tag = string_from_chars(&t);
        }
        let is_component = !is_fragment && (starts_upper(tag.as_str()) || contains_char(tag.as_str(), '.'));
        assert(is_component == component_tag(tag@));
        let mut props: Vec<Prop> = Vec::new();
        loop
            invariant
                self.inv(),
                self.source() == old(self).source(),
                self.rem() < old(self).rem(),
                wf_props(props@),
                is_component == component_tag(tag@),
            decreases self.rem(),
        {
            if self.check(&TokenKind::Slash) {
                self.advance()?;
                self.expect(TokenKind::Gt)?;
                let el = Element { tag, is_component, props, children: Vec::new() };
                assert(wf_element(el));
                return Ok(Expr::Element(el));
            }
            if self.check(&TokenKind::Gt) {
                self.advance()?;
                break;
            }
            let first = match &self.current.kind {
                TokenKind::Ident(name) => name.clone(),
                _ => {
                    return Err(self.err("unexpected token in element attributes"));
                },
            };
            self.advance()?;
            let ghost r0 = self.rem();
            let mut pname: Vec<char> = Vec::new();
            push_str(&mut pname, first.as_str());
            while self.check(&TokenKind::Minus)
                invariant
                    self.inv(),
                    self.source() == old(self).source(),
                    self.rem() <= r0,
                decreases self.rem(),
            {
                self.advance()?;
                pname.push('-');
                let seg = self.expect_ident()?;
                push_str(&mut pname, seg.as_str());
            }
            let pname = string_from_chars(&pname);
            let prop = if self.check(&TokenKind::Equals) {
                self.advance()?;
                if self.check(&TokenKind::LeftBrace) {
                    self.advance()?;
                    let value = self.parse_expr()?;
                    self.expect(TokenKind::RightBrace)?;
                    Prop { name: pname, value: Some(value) }
                } else {
                    let v = match &self.current.kind {
                        TokenKind::String(s) => s.clone(),
                        _ => {
                            return Err(self.err("expected `{...}` or string after `=`"));
                        },
                    };
                    self.advance()?;
                    Prop { name: pname, value: Some(Expr::Literal(Literal::String(v))) }
                }
            } else {
                Prop { name: pname, value: None }
            };
            proof { lemma_push_props(props@, prop); }
            props.push(prop);
        }
        let mut children: Vec<Expr> = Vec::new();
        while !self.check(&TokenKind::LtSlash) && !self.at_eof()
            invariant
                self.inv(),
                self.source() == old(self).source(),
                self.rem() < old(self).rem(),
                wf_exprs(children@),
            decreases self.rem(),
        {
            if self.check(&TokenKind::LeftBrace) {
                self.advance()?;
                let e = self.parse_expr()?;
                self.expect(TokenKind::RightBrace)?;
                proof { lemma_push_exprs(children@, e); }
                children.push(e);
            } else if self.check(&TokenKind::Lt) {
                let e = self.parse_element()?;
                proof { lemma_push_exprs(children@, e); }
                children.push(e);
            } else {
                // Literal text: everything from the current token up to the
                // next `{` or `<`.
                let raw = self.lexer.rescan_jsx_text(&self.current);
                let raw_chars = chars_of(raw.as_str());
                if raw_chars.len() == 0 {
                    return Err(self.err("unexpected token in element children"));
                }
                let trimmed = trim_chars(&raw_chars);
                let ghost had = self.lexer.has_pending();
                let ghost l0 = self.lexer;
                let t = self.lexer.next_token()?;
                proof {
                    self.lexer.lemma_bounds();
                    if had {
                        l0.lemma_pending_kind();
                    } else if t.kind is LeftParen {
                        lemma_paren_lexeme(self.lexer.text(), t.index as int, self.lexer.cursor());
                    }
                }
                self.current = t;
                if trimmed.len() > 0 {
                    let e = Expr::Literal(Literal::String(string_from_chars(&trimmed)));
                    proof { lemma_push_exprs(children@, e); }
                    children.push(e);
                }
            }
        }
        self.expect(TokenKind::LtSlash)?;
        if is_fragment {
            self.expect(TokenKind::Gt)?;
        } else {
            let mut close = self.expect_ident()?;
            if self.check(&TokenKind::Dot) {
                self.advance()?;
                let m = self.expect_ident()?;
                let mut t: Vec<char> = Vec::new();
                push_str(&mut t, close.as_str());
                t.push('.');
                push_str(&mut t, m.as_str());
                close = string_from_chars(&t);
            }
            if !str_eq(close.as_str(), tag.as_str()) {
                let mut msg: Vec<char> = Vec::new();
                push_str(&mut msg, "mismatched closing tag: expected ");
                push_str(&mut msg, tag.as_str());
                push_str(&mut msg, ", found ");
                push_str(&mut msg, close.as_str());
                return Err(self.err_string(string_from_chars(&msg)));
            }
            self.expect(TokenKind::Gt)?;
        }
        let el = Element { tag, is_component, props, children };
        assert(wf_element(el));
        Ok(Expr::Element(el))
    }

    // ---- declarations ----

    /// A whole program: declarations up to the end of input, with a root
    /// component named by an `export default`.
    pub fn parse_program(&mut self) -> (r: Result<Program, ParseError>)
        requires old(self).inv(),
        ensures
            final(self).source() == old(self).source(),
            r matches Ok(p) ==> wf_program(p),
            r matches Err(e) ==> error_positioned(e, old(self).source()),
    {
        let mut program = Program::new();
        while !self.at_eof()
            invariant
                self.inv(),
                self.source() == old(self).source(),
                wf_decls(program.decls@),
                program.root == default_root(program.decls@),
            decreases self.rem(),
        {
            let decl = self.parse_decl()?;
            let ghost before = program.decls@;
            match &decl {
                Decl::ExportDefault(name) => {
                    program.root = Some(name.clone());
                },
                _ => {},
            }
            program.decls.push(decl);
            proof {
                assert(program.decls@.drop_last() =~= before);
                assert(program.decls@.last() == decl);
                assert forall|i: int| 0 <= i < program.decls@.len() implies #[trigger] wf_decl(program.decls@[i]) by {
                    if i < before.len() {
                        assert(program.decls@[i] == before[i]);
                    }
                }
            }
        }
        if program.root.is_none() {
            return Err(self.err("no `export default` component found"));
        }
        Ok(program)
    }

    /// An imported module: declarations up to the end of input, with no
    /// root requirement (the root of a module graph is its entry's concern).
    pub fn parse_module(&mut self) -> (r: Result<Program, ParseError>)
        requires old(self).inv(),
        ensures
            final(self).source() == old(self).source(),
            r matches Ok(p) ==> wf_decls(p.decls@) && p.root is None,
            r matches Ok(p) ==> final(self).at_end() && (p.decls@.len() == 0 <==> old(self).at_end()),
            r matches Err(e) ==> error_positioned(e, old(self).source()),
    {
        let mut program = Program::new();
        while !self.at_eof()
            invariant
                self.inv(),
                self.source() == old(self).source(),
                wf_decls(program.decls@),
                program.root is None,
                program.decls@.len() == 0 ==> self.current == old(self).current,
                program.decls@.len() > 0 ==> !(old(self).current.kind is Eof),
            decreases self.rem(),
        {
            let decl = self.parse_decl()?;
            let ghost before = program.decls@;
            program.decls.push(decl);
            proof {
                assert forall|i: int| 0 <= i < program.decls@.len() implies #[trigger] wf_decl(program.decls@[i]) by {
                    if i < before.len() {
                        assert(program.decls@[i] == before[i]);
                    }
                }
            }
        }
        Ok(program)
    }

    fn parse_decl(&mut self) -> (r: Result<Decl, ParseError>)
        requires old(self).inv(),
        ensures
            final(self).source() == old(self).source(),
            r matches Ok(d) ==> final(self).inv() && final(self).rem() < old(self).rem() && wf_decl(d),
            r matches Err(e) ==> error_positioned(e, old(self).source()),
    {
        if self.is_kw("import") {
            self.parse_import()
        } else if self.is_kw("component") {
            Ok(Decl::Component(self.parse_component()?))
        } else if self.is_kw("class") {
            Ok(Decl::Class(self.parse_class()?))
        } else if self.is_kw("export") {
            self.parse_export()
        } else if self.is_kw("function") {
            self.parse_function_decl()
        } else if self.is_kw("let") || self.is_kw("const") {
            let kind = if self.is_kw("let") { DeclKind::Let } else { DeclKind::Const };
            self.advance()?;
            let (pattern, value) = self.parse_binding()?;
            self.expect(TokenKind::Semicolon)?;
            Ok(Decl::TopLevel { kind, pattern, value })
        } else {
            Err(self.err("expected a declaration (import/component/export)"))
        }
    }

    /// `class Name extends Base { state = expr; method(a, b) { ... } }`.
    fn parse_class(&mut self) -> (r: Result<ClassComponent, ParseError>)
        requires old(self).inv(),
        ensures
            final(self).source() == old(self).source(),
            r matches Ok(c) ==> final(self).inv() && final(self).rem() < old(self).rem() && wf_class(c),
            r matches Err(e) ==> error_positioned(e, old(self).source()),
    {
        self.advance()?;
        let name = self.expect_ident()?;
        if !self.is_kw("extends") {
            return Err(self.err("expected `extends` after class name"));
        }
        self.advance()?;
        if self.check(&TokenKind::LeftBrace) {
            return Err(self.err("expected `extends` after class name"));
        }
        let extends: Option<String> = match &self.current.kind {
            TokenKind::Ident(base) => {
                let b = base.clone();
                self.advance()?;
                Some(b)
            },
            _ => None,
        };
        self.expect(TokenKind::LeftBrace)?;
        let mut state: Option<Expr> = None;
        let mut methods: Vec<Method> = Vec::new();
        while !self.check(&TokenKind::RightBrace) && !self.at_eof()
            invariant
                self.inv(),
                self.source() == old(self).source(),
                self.rem() < old(self).rem(),
                match state {
                    Some(x) => wf_expr(x),
                    None => true,
                },
                forall|i: int| 0 <= i < methods@.len() ==> #[trigger] wf_method(methods@[i]),
            decreases self.rem(),
        {
            let fname = match &self.current.kind {
                TokenKind::Ident(field) => field.clone(),
                _ => {
                    return Err(self.err("expected a class member"));
                },
            };
            self.advance()?;
            if self.check(&TokenKind::Equals) {
                if !str_eq(fname.as_str(), "state") {
                    return Err(self.err("only `state` may be a class field"));
                }
                self.advance()?;
                let value = self.parse_expr()?;
                self.expect(TokenKind::Semicolon)?;
                state = Some(value);
                continue;
            }
            if self.check(&TokenKind::LeftParen) {
                self.advance()?;
                let ghost r0 = self.rem();
                let mut params: Vec<Param> = Vec::new();
                if !self.check(&TokenKind::RightParen) {
                    let p = plain_param(self.expect_ident()?);
                    params.push(p);
                    while self.check(&TokenKind::Comma)
                        invariant
                            self.inv(),
                            self.source() == old(self).source(),
                            self.rem() <= r0,
                            forall|j: int| 0 <= j < params@.len() ==> plain(#[trigger] params@[j]),
                        decreases self.rem(),
                    {
                        self.advance()?;
                        let p = plain_param(self.expect_ident()?);
                        params.push(p);
                    }
                }
                self.expect(TokenKind::RightParen)?;
                let body = self.parse_stmt_block()?;
                let m = Method { name: fname, params, body };
                let ghost before = methods@;
                methods.push(m);
                proof {
                    assert forall|i: int| 0 <= i < methods@.len() implies #[trigger] wf_method(methods@[i]) by {
                        if i < before.len() {
                            assert(methods@[i] == before[i]);
                        }
                    }
                }
                continue;
            }
            return Err(self.err("expected `=` (field) or `(` (method) after class member"));
        }
        self.expect(TokenKind::RightBrace)?;
        Ok(ClassComponent { name, extends, state, methods })
    }

    /// `import "p";`, `import { a, b as c } from "p";`, `import * as ns from
    /// "p";`, `import D from "p";`, `import D, { a } from "p";` or
    /// `import D, * as ns from "p";`.
    fn parse_import(&mut self) -> (r: Result<Decl, ParseError>)
        requires old(self).inv(),
        ensures
            final(self).source() == old(self).source(),
            r matches Ok(d) ==> final(self).inv() && final(self).rem() < old(self).rem() && d is Import,
            r matches Err(e) ==> error_positioned(e, old(self).source()),
    {
        self.advance()?;
        let mut default_: Option<String> = None;
        let mut named: Vec<(String, String)> = Vec::new();
        let mut namespace: Option<String> = None;
        let path = if self.check_string() {
            self.expect_string()?
        } else if self.check(&TokenKind::LeftBrace) {
            self.advance()?;
            self.parse_named_imports(&mut named)?;
            self.expect_from()?;
            self.expect_string()?
        } else if self.check(&TokenKind::Star) {
            self.advance()?;
            self.expect_keyword("as")?;
            namespace = Some(self.expect_ident()?);
            self.expect_from()?;
            self.expect_string()?
        } else {
            default_ = Some(self.expect_ident()?);
            if self.check(&TokenKind::Comma) {
                self.advance()?;
                if self.check(&TokenKind::LeftBrace) {
                    self.advance()?;
                    self.parse_named_imports(&mut named)?;
                } else if self.check(&TokenKind::Star) {
                    self.advance()?;
                    self.expect_keyword("as")?;
                    namespace = Some(self.expect_ident()?);
                } else {
                    return Err(self.err("expected `{` or `*` after `,`"));
                }
            }
            self.expect_from()?;
            self.expect_string()?
        };
        self.expect(TokenKind::Semicolon)?;
        Ok(Decl::Import(Import { default_, named, namespace, path }))
    }

    /// Whether the current token is a string literal.
    fn check_string(&self) -> (r: bool)
        ensures r == (self.current.kind is String),
    {
        match &self.current.kind {
            TokenKind::String(_) => true,
            _ => false,
        }
    }

    /// `a, b as c }` as `(imported, local)` pairs, after the `{`; consumes
    /// the closing `}`.
    fn parse_named_imports(&mut self, out: &mut Vec<(String, String)>) -> (r: Result<(), ParseError>)
        requires old(self).inv(),
        ensures
            final(self).source() == old(self).source(),
            r matches Ok(_) ==> final(self).inv() && final(self).rem() < old(self).rem(),
            r matches Err(e) ==> error_positioned(e, old(self).source()),
    {
        while !self.check(&TokenKind::RightBrace)
            invariant
                self.inv(),
                self.source() == old(self).source(),
                self.rem() <= old(self).rem(),
            decreases self.rem(),
        {
            let imported = self.expect_ident()?;
            let local = if self.is_kw("as") {
                self.advance()?;
                self.expect_ident()?
            } else {
                imported.clone()
            };
            out.push((imported, local));
            if self.check(&TokenKind::Comma) {
                self.advance()?;
            } else {
                break;
            }
        }
        self.expect(TokenKind::RightBrace)
    }

    /// `export default Name;`, `export { a, b as c };`, `export function ...`,
    /// `export const name = expr;` or `export let name = expr;`.
    fn parse_export(&mut self) -> (r: Result<Decl, ParseError>)
        requires old(self).inv(),
        ensures
            final(self).source() == old(self).source(),
            r matches Ok(d) ==> final(self).inv() && final(self).rem() < old(self).rem() && wf_decl(d),
            r matches Err(e) ==> error_positioned(e, old(self).source()),
    {
        self.advance()?;
        if self.is_kw("default") {
            self.advance()?;
            let name = self.expect_ident()?;
            self.expect(TokenKind::Semicolon)?;
            return Ok(Decl::ExportDefault(name));
        }
        if self.check(&TokenKind::LeftBrace) {
            self.advance()?;
            let mut names: Vec<(String, String)> = Vec::new();
            while !self.check(&TokenKind::RightBrace)
                invariant
                    self.inv(),
                    self.source() == old(self).source(),
                    self.rem() < old(self).rem(),
                decreases self.rem(),
            {
                let local = self.expect_ident()?;
                let exported = if self.is_kw("as") {
                    self.advance()?;
                    self.expect_ident()?
                } else {
                    local.clone()
                };
                names.push((local, exported));
                if self.check(&TokenKind::Comma) {
                    self.advance()?;
                } else {
                    break;
                }
            }
            self.expect(TokenKind::RightBrace)?;
            self.expect(TokenKind::Semicolon)?;
            return Ok(Decl::ExportNamed(ExportNamed { names }));
        }
        if self.is_kw("function") {
            let d = self.parse_function_decl()?;
            return match d {
                Decl::FuncDecl(f) => Ok(Decl::ExportDecl(ExportDecl::Function(f))),
                other => Ok(other),
            };
        }
        if self.is_kw("const") || self.is_kw("let") {
            self.advance()?;
            let name = self.expect_ident()?;
            self.expect(TokenKind::Equals)?;
            let value = self.parse_expr()?;
            self.expect(TokenKind::Semicolon)?;
            return Ok(Decl::ExportDecl(ExportDecl::Const { name, value }));
        }
        Err(self.err("expected `default` or `{` after `export`"))
    }

    /// `function name(params) { stmts }` or `function* name(params) { stmts }`.
    fn parse_function_decl(&mut self) -> (r: Result<Decl, ParseError>)
        requires old(self).inv(),
        ensures
            final(self).source() == old(self).source(),
            r matches Ok(d) ==> final(self).inv() && final(self).rem() < old(self).rem() && wf_decl(d) && (d is FuncDecl || d is GeneratorFn),
            r matches Err(e) ==> error_positioned(e, old(self).source()),
    {
        self.advance()?;
        if self.check(&TokenKind::Star) {
            return self.parse_generator_fn_tail();
        }
        let name = self.expect_ident()?;
        let params = self.parse_param_patterns()?;
        let body = self.parse_stmt_block()?;
        Ok(Decl::FuncDecl(FuncDecl { name, params, body }))
    }

    /// `* name(params) { stmts }` of a generator function.
    fn parse_generator_fn_tail(&mut self) -> (r: Result<Decl, ParseError>)
        requires old(self).inv(),
        ensures
            final(self).source() == old(self).source(),
            r matches Ok(d) ==> final(self).inv() && final(self).rem() < old(self).rem() && wf_decl(d) && d is GeneratorFn,
            r matches Err(e) ==> error_positioned(e, old(self).source()),
    {
        self.advance()?;
        let name = self.expect_ident()?;
        let params = self.parse_param_patterns()?;
        let body = self.parse_stmt_block()?;
        Ok(Decl::GeneratorFn(GeneratorFn { name, params, body }))
    }

    /// `component Name(params) { stmts }`.
    fn parse_component(&mut self) -> (r: Result<Component, ParseError>)
        requires old(self).inv(),
        ensures
            final(self).source() == old(self).source(),
            r matches Ok(c) ==> final(self).inv() && final(self).rem() < old(self).rem() && rest_last(c.params@) && wf_params(c.params@) && wf_stmts(c.body@),
            r matches Err(e) ==> error_positioned(e, old(self).source()),
    {
        self.expect_keyword("component")?;
        let name = self.expect_ident()?;
        let params = self.parse_param_patterns()?;
        self.expect(TokenKind::LeftBrace)?;
        let mut body: Vec<Stmt> = Vec::new();
        while !self.check(&TokenKind::RightBrace)
            invariant
                self.inv(),
                self.source() == old(self).source(),
                self.rem() < old(self).rem(),
                wf_stmts(body@),
            decreases self.rem(),
        {
            let s = self.parse_stmt()?;
            proof { lemma_push_stmts(body@, s); }
            body.push(s);
        }
        self.expect(TokenKind::RightBrace)?;
        Ok(Component { name, params, body })
    }

    // ---- recovery ----

    /// An independent copy of the parser state to resume from.
    fn snapshot(&self) -> (r: Parser<'a>)
        requires self.inv(),
        ensures r.inv(), r.source() == self.source(), r.rem() == self.rem(), r.current == self.current,
    {
        Parser { lexer: self.lexer.duplicate(), current: self.current.duplicate() }
    }

    /// Advance to the first token at or after `line`:`column` (or the end).
    fn skip_to(&mut self, line: usize, column: usize) -> (r: Result<(), ParseError>)
        requires old(self).inv(),
        ensures
            final(self).source() == old(self).source(),
            r matches Ok(_) ==> final(self).inv() && final(self).rem() <= old(self).rem(),
            r matches Ok(_) ==> final(self).current.kind is Eof || final(self).current.line > line
                || (final(self).current.line == line && final(self).current.column >= column),
            (old(self).current.kind is Eof || old(self).current.line > line
                || (old(self).current.line == line && old(self).current.column >= column))
                ==> r is Ok && *final(self) == *old(self),
            r matches Err(e) ==> error_positioned(e, old(self).source()),
    {
        while !self.at_eof()
            && (self.current.line < line || (self.current.line == line && self.current.column < column))
            invariant
                self.inv(),
                self.source() == old(self).source(),
                self.rem() <= old(self).rem(),
                (old(self).current.kind is Eof || old(self).current.line > line
                    || (old(self).current.line == line && old(self).current.column >= column))
                    ==> *self == *old(self),
            decreases self.rem(),
        {
            self.advance()?;
        }
        Ok(())
    }

    /// Whether the current token can start a statement after a failed one:
    /// `;`, `}`, the end of input, or a statement keyword.
    fn at_stmt_boundary(&self) -> (r: bool)
        ensures r == stmt_boundary(self.current.kind),
    {
        self.check(&TokenKind::Semicolon) || self.check(&TokenKind::RightBrace) || self.at_eof()
            || self.is_kw("let") || self.is_kw("const") || self.is_kw("return") || self.is_kw("if")
            || self.is_kw("while") || self.is_kw("for") || self.is_kw("switch") || self.is_kw("break")
            || self.is_kw("continue")
    }

    /// Skip tokens up to a statement boundary.
    fn sync_to_stmt_boundary(&mut self) -> (r: Result<(), ParseError>)
        requires old(self).inv(),
        ensures
            final(self).source() == old(self).source(),
            r matches Ok(_) ==> final(self).inv() && final(self).rem() <= old(self).rem(),
            r matches Ok(_) ==> stmt_boundary(final(self).current.kind),
            stmt_boundary(old(self).current.kind) ==> r is Ok && *final(self) == *old(self),
            r matches Err(e) ==> error_positioned(e, old(self).source()),
    {
        while !self.at_stmt_boundary()
            invariant
                self.inv(),
                self.source() == old(self).source(),
                self.rem() <= old(self).rem(),
                stmt_boundary(old(self).current.kind) ==> *self == *old(self),
            decreases self.rem(),
        {
            self.advance()?;
        }
        Ok(())
    }

    /// `component Name(params) { stmts }`, recording a failed statement in
    /// `errors` and resuming at the next statement boundary after its error.
    fn recover_component(&mut self, errors: &mut Vec<ParseError>) -> (r: Result<Component, ParseError>)
        requires
            old(self).inv(),
            forall|i: int| 0 <= i < old(errors)@.len() ==> #[trigger] error_positioned(old(errors)@[i], old(self).source()),
        ensures
            final(self).source() == old(self).source(),
            forall|i: int| 0 <= i < final(errors)@.len() ==> #[trigger] error_positioned(final(errors)@[i], old(self).source()),
            r matches Ok(c) ==> final(self).inv() && final(self).rem() < old(self).rem()
                && rest_last(c.params@) && wf_params(c.params@) && wf_stmts(c.body@),
            r matches Err(e) ==> error_positioned(e, old(self).source()),
    {
        self.expect_keyword("component")?;
        let name = self.expect_ident()?;
        let params = self.parse_param_patterns()?;
        self.expect(TokenKind::LeftBrace)?;
        let mut body: Vec<Stmt> = Vec::new();
        while !self.check(&TokenKind::RightBrace) && !self.at_eof()
            invariant
                self.inv(),
                self.source() == old(self).source(),
                self.rem() < old(self).rem(),
                wf_stmts(body@),
                forall|i: int| 0 <= i < errors@.len() ==> #[trigger] error_positioned(errors@[i], old(self).source()),
            decreases self.rem(),
        {
            let start = self.snapshot();
            let start_index = self.current.index;
            let ghost r0 = self.rem();
            proof { self.lexer.lemma_bounds(); }
            assert(start_index < self.source().len());
            match self.parse_stmt() {
                Ok(s) => {
                    proof { lemma_push_stmts(body@, s); }
                    body.push(s);
                },
                Err(e) => {
                    let line = e.line;
                    let column = e.column;
                    errors.push(e);
                    *self = start;
                    self.skip_to(line, column)?;
                    self.sync_to_stmt_boundary()?;
                    if self.check(&TokenKind::Semicolon) {
                        self.advance()?;
                    }
                    assert(self.rem() <= r0);
                    if self.current.index == start_index {
                        assert(!(self.current.kind is Eof));
                        self.advance()?;
                    }
                    assert(self.rem() < r0);
                },
            }
        }
        self.expect(TokenKind::RightBrace)?;
        Ok(Component { name, params, body })
    }

    /// Whether the current token can start a declaration after a failed one:
    /// `;`, the end of input, `import`, `component` or `export`.
    fn at_decl_boundary(&self) -> (r: bool)
        ensures r == decl_boundary(self.current.kind),
    {
        self.check(&TokenKind::Semicolon) || self.at_eof() || self.is_kw("import")
            || self.is_kw("component") || self.is_kw("export")
    }

    /// A whole program, recording every failed declaration (and every failed
    /// statement of a component body) in `errors` instead of stopping: after
    /// a failed declaration, parsing resumes at the next `import`,
    /// `component` or `export` after its first token, or after the next `;`.
    /// A missing `export default` is recorded at the end of input.
    pub fn recover_program(&mut self, errors: &mut Vec<ParseError>) -> (r: Result<Program, ParseError>)
        requires
            old(self).inv(),
            forall|i: int| 0 <= i < old(errors)@.len() ==> #[trigger] error_positioned(old(errors)@[i], old(self).source()),
        ensures
            final(self).source() == old(self).source(),
            forall|i: int| 0 <= i < final(errors)@.len() ==> #[trigger] error_positioned(final(errors)@[i], old(self).source()),
            r matches Ok(p) ==> wf_decls(p.decls@) && p.root == default_root(p.decls@)
                && (p.root is None ==> final(errors)@.len() > 0),
            r matches Err(e) ==> error_positioned(e, old(self).source()),
    {
        let mut program = Program::new();
        while !self.at_eof()
            invariant
                self.inv(),
                self.source() == old(self).source(),
                wf_decls(program.decls@),
                program.root == default_root(program.decls@),
                forall|i: int| 0 <= i < errors@.len() ==> #[trigger] error_positioned(errors@[i], old(self).source()),
            decreases self.rem(),
        {
            let start = self.snapshot();
            let attempt = if self.is_kw("component") {
                match self.recover_component(errors) {
                    Ok(c) => Ok(Decl::Component(c)),
                    Err(e) => Err(e),
                }
            } else {
                self.parse_decl()
            };
            match attempt {
                Ok(decl) => {
                    let ghost before = program.decls@;
                    match &decl {
                        Decl::ExportDefault(name) => {
                            program.root = Some(name.clone());
                        },
                        _ => {},
                    }
                    program.decls.push(decl);
                    proof {
                        assert(program.decls@.drop_last() =~= before);
                        assert(program.decls@.last() == decl);
                        assert forall|i: int| 0 <= i < program.decls@.len() implies #[trigger] wf_decl(program.decls@[i]) by {
                            if i < before.len() {
                                assert(program.decls@[i] == before[i]);
                            }
                        }
                    }
                },
                Err(e) => {
                    errors.push(e);
                    *self = start;
                    self.advance()?;
                    while !self.at_decl_boundary()
                        invariant
                            self.inv(),
                            self.source() == old(self).source(),
                            self.rem() < start.rem(),
                            forall|i: int| 0 <= i < errors@.len() ==> #[trigger] error_positioned(errors@[i], old(self).source()),
                        decreases self.rem(),
                    {
                        self.advance()?;
                    }
                    if self.check(&TokenKind::Semicolon) {
                        self.advance()?;
                    }
                },
            }
        }
        if program.root.is_none() {
            errors.push(self.err("no `export default` component found"));
        }
        Ok(program)
    }
}


} // verus!
