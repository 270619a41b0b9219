use r2n::ast::expr::{ArrayItem, CallArg, Element, Expr, ObjectItem, Prop, UpdateOp};
use r2n::ast::lit::Literal;
use r2n::ast::op::{BinOp, UnOp};
use r2n::ast::program::{DeclKind, ObjectProp, Param, Stmt};
use r2n::ast::program::{Decl, ExportDecl, Pattern};
use r2n::ast::render::param_list_string;
use r2n::parser::parse;

fn top_level(src: &str) -> (Pattern, r2n::ast::expr::Expr) {
    let full = format!("{src}\ncomponent A() {{ return <div/>; }}\nexport default A;");
    let prog = parse(&full).expect("parses");
    match prog.decls.into_iter().next() {
        Some(Decl::TopLevel { pattern, value, .. }) => (pattern, value),
        _ => panic!("expected a top-level binding"),
    }
}

#[test]
fn expressions_render_fully_parenthesized() {
    let (_, e) = top_level("let v = a + b * 2;");
    assert_eq!(e.to_string(), "(a + (b * 2))");
    let (_, e) = top_level("let v = !x ? f(1, ...rest) : new Map(a);");
    assert_eq!(e.to_string(), "((!x) ? f(1, ...rest) : new Map(a))");
    let (_, e) = top_level("let v = obj.items[0];");
    assert_eq!(e.to_string(), "obj.items.get(0)");
    let (_, e) = top_level("let v = [1, ...xs, {a, b: 2, ...c}];");
    assert_eq!(e.to_string(), "[1, ...xs, {a, b: 2, ...c}]");
    let (_, e) = top_level("let v = async (x, y = 1) => { x++; return y; };");
    assert_eq!(e.to_string(), "async (x, y = 1) => {(x++); y; }");
    let (_, e) = top_level("let v = `a${n + 1}b`;");
    assert_eq!(e.to_string(), "`a${(n + 1)}b`");
    let (_, e) = top_level("let v = <div id=\"x\" hidden>hi</div>;");
    assert_eq!(e.to_string(), "<div/2>");
    let (_, e) = top_level("let v = function named(a) { return a; };");
    assert_eq!(e.to_string(), "function named(a) { 1 stmts }");
    let (_, e) = top_level("let v = import(\"./lazy\");");
    assert_eq!(e.to_string(), "import(\"./lazy\")");
}

#[test]
fn try_shows_blocks_by_debug() {
    let (_, e) = top_level("let v = try { f(); } catch (err) { g(); } finally { h(); };");
    let text = e.to_string();
    assert!(text.starts_with("try { ["), "was: {text}");
    assert!(text.contains("catch (err) { Some(["), "was: {text}");
    assert!(text.contains("finally { ["), "was: {text}");
}

#[test]
fn patterns_render_in_source_form() {
    let (p, _) = top_level("let {a, b: [c, , d], e = 1, ...rest} = obj;");
    assert_eq!(p.to_string(), "{a, b: [c, , d], e: e = 1, ...rest}");
    let (p, _) = top_level("let [...all] = xs;");
    assert_eq!(p.to_string(), "[...all]");
}

#[test]
fn parameter_lists_render_with_defaults_and_rest() {
    let prog = parse(
        "export function f(a, {b}, c = 2, ...d) { return a; }\ncomponent A() { return <div/>; }\nexport default A;",
    )
    .expect("parses");
    match &prog.decls[0] {
        Decl::ExportDecl(ExportDecl::Function(f)) => {
            assert_eq!(param_list_string(&f.params), "a, {b}, c = 2, ...d");
        }
        _ => panic!("expected an exported function"),
    }
    assert_eq!(param_list_string(&[]), "");
}

#[test]
fn literals_render() {
    assert_eq!(Literal::Int(-42).to_string(), "-42");
    assert_eq!(Literal::Int(i64::MIN).to_string(), "-9223372036854775808");
    assert_eq!(Literal::Float("2.50".to_string()).to_string(), "2.50");
    assert_eq!(Literal::String("a\"b\n".to_string()).to_string(), "\"a\\\"b\\n\"");
    assert_eq!(Literal::Bool(false).to_string(), "false");
    assert_eq!(Literal::Null.to_string(), "null");
    assert_eq!(Literal::Undefined.to_string(), "undefined");
}

fn id(n: &str) -> Expr {
    Expr::Ident { name: n.to_string(), is_component: false }
}

fn varied_exprs() -> Vec<Expr> {
    let pat_name = |n: &str| Pattern::Name { name: n.to_string(), default: None };
    vec![
        Expr::Literal(Literal::Int(-42)),
        Expr::Literal(Literal::Float("1.5".to_string())),
        Expr::Literal(Literal::String("say \"hi\"\n\tand \\ bye".to_string())),
        Expr::Literal(Literal::Bool(true)),
        Expr::Literal(Literal::Null),
        Expr::Literal(Literal::Undefined),
        Expr::Member { base: Box::new(id("a")), prop: "b".to_string() },
        Expr::Binary { op: BinOp::Nullish, left: Box::new(id("x")), right: Box::new(id("y")) },
        Expr::Unary { op: UnOp::Not, expr: Box::new(id("z")) },
        Expr::Call { callee: Box::new(id("f")), args: vec![CallArg::Expr(id("a")), CallArg::Spread(id("r"))] },
        Expr::New { callee: Box::new(id("C")), args: vec![] },
        Expr::Assign { target: Box::new(id("a")), value: Box::new(Expr::Literal(Literal::Int(1))) },
        Expr::Element(Element {
            tag: "div".to_string(),
            is_component: false,
            props: vec![Prop { name: "id".to_string(), value: Some(id("v")) }, Prop { name: "hidden".to_string(), value: None }],
            children: vec![Expr::Element(Element { tag: "App".to_string(), is_component: true, props: vec![], children: vec![] })],
        }),
        Expr::Ternary { cond: Box::new(id("c")), then: Box::new(id("t")), else_: Box::new(id("e")) },
        Expr::Array(vec![ArrayItem::Expr(id("a")), ArrayItem::Spread(id("b"))]),
        Expr::Object(vec![ObjectItem::Shorthand("k".to_string()), ObjectItem::Prop("p".to_string(), id("v")), ObjectItem::Spread(id("o"))]),
        Expr::Template { parts: vec!["a".to_string(), "b".to_string()], exprs: vec![id("x")] },
        Expr::Update { op: UpdateOp::Dec, target: Box::new(id("i")), prefix: true },
        Expr::CompoundAssign { op: BinOp::Add, target: Box::new(id("s")), value: Box::new(id("t")) },
        Expr::Arrow {
            params: vec![
                Param { pattern: pat_name("a"), default: Some(Expr::Literal(Literal::Int(0))), rest: false },
                Param {
                    pattern: Pattern::Object {
                        props: vec![ObjectProp { key: "k".to_string(), alias: Some(pat_name("kk")) }, ObjectProp { key: "j".to_string(), alias: None }],
                        rest: Some("more".to_string()),
                    },
                    default: None,
                    rest: false,
                },
                Param { pattern: Pattern::Array { items: vec![Some(pat_name("h")), None], rest: None }, default: None, rest: true },
            ],
            body: Box::new(id("a")),
            async_: true,
        },
        Expr::Function {
            name: Some("g".to_string()),
            params: vec![],
            body: vec![
                Stmt::Let { name: "a".to_string(), value: id("b") },
                Stmt::Const { name: "c".to_string(), value: id("d") },
                Stmt::Destructure { kind: DeclKind::Const, pattern: pat_name("q"), value: id("w") },
                Stmt::If { cond: id("c"), then: vec![Stmt::Break], else_: Some(vec![Stmt::Continue]) },
                Stmt::While { cond: id("w"), body: vec![Stmt::Expr(id("x"))] },
                Stmt::For {
                    init: Some(Box::new(Stmt::Let { name: "i".to_string(), value: Expr::Literal(Literal::Int(0)) })),
                    cond: Some(id("k")),
                    update: None,
                    body: vec![],
                },
                Stmt::Switch { disc: id("s"), cases: vec![(Some(Expr::Literal(Literal::Int(1))), vec![Stmt::Break]), (None, vec![])] },
                Stmt::Return(id("r")),
            ],
        },
        Expr::Function { name: None, params: vec![], body: vec![] },
        Expr::Return(Some(Box::new(id("v")))),
        Expr::Return(None),
        Expr::Yield { value: None, from_return: false },
        Expr::Await { value: Box::new(id("p")), from_return: true },
        Expr::DynImport { specifier: "./m".to_string() },
        Expr::Block(vec![id("a"), Expr::Break, Expr::Continue]),
        Expr::Throw(Box::new(id("err"))),
        Expr::While { cond: Box::new(id("c")), body: Box::new(Expr::Block(vec![])) },
        Expr::Try { block: vec![id("a")], catch_param: Some("e".to_string()), catch: Some(vec![]), finally: None },
    ]
}

#[test]
fn try_text_shows_its_blocks_as_derived_debug() {
    let e = Expr::Try { block: varied_exprs(), catch_param: None, catch: None, finally: Some(vec![id("z")]) };
    let expected = format!("try {{ {:?} }} finally {{ {:?} }}", varied_exprs(), vec![id("z")]);
    assert_eq!(e.to_string(), expected);
}
