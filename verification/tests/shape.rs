use r2n::ast::expr::Expr;
use r2n::ast::program::Stmt;
use r2n::ir::shape::{contains_await, is_renderable_expr, is_short_circuit_render, stmt_kind};
use r2n::parser::parser::Parser;

fn expr(src: &str) -> Expr {
    let chars: Vec<char> = src.chars().collect();
    let mut p = Parser::new(&chars).expect("lexes");
    p.parse_expr().expect("parses")
}

#[test]
fn await_and_yield_suspend() {
    assert!(contains_await(&expr("await load()")));
    assert!(contains_await(&expr("1 + await load()")));
    assert!(contains_await(&expr("f(...(await xs))")));
    assert!(contains_await(&expr("[1, await p]")));
    assert!(contains_await(&expr("({ a: await p })")));
    assert!(contains_await(&expr("`a${await p}b`")));
    assert!(contains_await(&expr("cond ? 1 : await p")));
    assert!(contains_await(&expr("(await p).field")));
}

#[test]
fn nested_arrows_and_plain_values_do_not_suspend() {
    assert!(!contains_await(&expr("async () => await load()")));
    assert!(!contains_await(&expr("f(async () => await x)")));
    assert!(!contains_await(&expr("a + b * c")));
    assert!(!contains_await(&expr("({ a, b: 1 })")));
    assert!(!contains_await(&expr("<div>{x}</div>")));
    assert!(!contains_await(&expr("42")));
}

#[test]
fn short_circuits_that_render_a_node() {
    assert!(is_short_circuit_render(&expr("show && <Panel/>")));
    assert!(is_short_circuit_render(&expr("hidden || <p>fallback</p>")));
    assert!(is_short_circuit_render(&expr("show && (a ? <A/> : <B/>)")));
    assert!(!is_short_circuit_render(&expr("a && b")));
    assert!(!is_short_circuit_render(&expr("n + <p/>")));
    assert!(is_renderable_expr(&expr("<div/>")));
    assert!(is_renderable_expr(&expr("a ? b : c")));
    assert!(!is_renderable_expr(&expr("a && <div/>")));
}

#[test]
fn statement_kinds_are_named() {
    assert_eq!(stmt_kind(&Stmt::Break), "break");
    assert_eq!(stmt_kind(&Stmt::Continue), "continue");
    assert_eq!(stmt_kind(&Stmt::Expr(expr("f()"))), "expression statement");
    assert_eq!(
        stmt_kind(&Stmt::While { cond: expr("x"), body: Vec::new() }),
        "while loop"
    );
    assert_eq!(
        stmt_kind(&Stmt::Let { name: "x".to_string(), value: expr("1") }),
        "let"
    );
}
