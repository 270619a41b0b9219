use r2n::ast::expr::{CallArg, Expr};
use r2n::ast::lit::Literal;
use r2n::ast::program::{DeclKind, ObjectProp, Param, Pattern, Stmt};
use r2n::ir::js::{JsAsyncSegment, JsBinOp, JsExpr};
use r2n::ir::lower::LowerError;
use r2n::ir::lowering::{lower_expr, lower_stmt};

fn id(n: &str) -> Expr {
    Expr::Ident { name: n.to_string(), is_component: false }
}

fn var(n: &str) -> JsExpr {
    JsExpr::Var(n.to_string())
}

fn lower(e: &Expr) -> Result<JsExpr, LowerError> {
    let mut fresh = 0u64;
    lower_expr(e, &Vec::new(), &mut fresh)
}

fn name_pat(n: &str) -> Pattern {
    Pattern::Name { name: n.to_string(), default: None }
}

#[test]
fn identifiers_members_and_undefined() {
    assert_eq!(lower(&id("undefined")).unwrap(), JsExpr::Lit(Literal::Undefined));
    assert_eq!(lower(&id("x")).unwrap(), var("x"));
    let m = Expr::Member { base: Box::new(id("a")), prop: "b".to_string() };
    assert_eq!(lower(&m).unwrap(), JsExpr::Get { base: Box::new(var("a")), prop: "b".to_string() });
    let d = Expr::DynImport { specifier: "./w".to_string() };
    assert_eq!(lower(&d).unwrap(), var("@module:./w"));
}

#[test]
fn get_with_one_plain_argument_is_an_index() {
    let get = |arg: CallArg| Expr::Call {
        callee: Box::new(Expr::Member { base: Box::new(id("xs")), prop: "get".to_string() }),
        args: vec![arg],
    };
    assert_eq!(
        lower(&get(CallArg::Expr(id("i")))).unwrap(),
        JsExpr::Index { base: Box::new(var("xs")), key: Box::new(var("i")) }
    );
    assert_eq!(
        lower(&get(CallArg::Spread(id("r")))).unwrap(),
        JsExpr::Call {
            callee: Box::new(JsExpr::Get { base: Box::new(var("xs")), prop: "get".to_string() }),
            args: vec![JsExpr::SpreadArg(Box::new(var("r")))],
        }
    );
}

#[test]
fn templates_concatenate_their_pieces() {
    let t = Expr::Template { parts: vec!["a".to_string(), "b".to_string()], exprs: vec![id("x")] };
    let lit = |s: &str| JsExpr::Lit(Literal::String(s.to_string()));
    assert_eq!(
        lower(&t).unwrap(),
        JsExpr::Bin {
            op: JsBinOp::Add,
            left: Box::new(JsExpr::Bin { op: JsBinOp::Add, left: Box::new(lit("a")), right: Box::new(var("x")) }),
            right: Box::new(lit("b")),
        }
    );
    let empty = Expr::Template { parts: vec!["".to_string()], exprs: vec![] };
    assert_eq!(lower(&empty).unwrap(), lit(""));
}

#[test]
fn suspensions_and_elements_are_not_values() {
    let aw = Expr::Await { value: Box::new(id("p")), from_return: false };
    assert_eq!(lower(&aw), Err(LowerError::UnsupportedAwait("await outside an async function".to_string())));
    let y = Expr::Yield { value: None, from_return: false };
    assert_eq!(lower(&y), Err(LowerError::UnsupportedAwait("yield outside a generator function".to_string())));
}

#[test]
fn destructuring_parameters_bind_from_a_synthetic_name() {
    let pattern = Pattern::Object {
        props: vec![
            ObjectProp { key: "a".to_string(), alias: None },
            ObjectProp { key: "b".to_string(), alias: Some(Pattern::Array { items: vec![Some(name_pat("c"))], rest: None }) },
        ],
        rest: None,
    };
    let arrow = Expr::Arrow {
        params: vec![Param { pattern, default: None, rest: false }],
        body: Box::new(id("a")),
        async_: false,
    };
    let p0 = || var("$p0");
    let expected = JsExpr::Closure {
        params: vec!["$p0".to_string()],
        captures: vec![],
        body: Box::new(JsExpr::Block(vec![
            JsExpr::Assign {
                target: Box::new(var("a")),
                value: Box::new(JsExpr::Get { base: Box::new(p0()), prop: "a".to_string() }),
            },
            JsExpr::Assign {
                target: Box::new(var("c")),
                value: Box::new(JsExpr::Index {
                    base: Box::new(JsExpr::Get { base: Box::new(p0()), prop: "b".to_string() }),
                    key: Box::new(JsExpr::Lit(Literal::Int(0))),
                }),
            },
            var("a"),
        ])),
    };
    assert_eq!(lower(&arrow).unwrap(), expected);
}

#[test]
fn rest_parameters_and_pattern_defaults_are_rejected() {
    let rest = Expr::Arrow {
        params: vec![Param { pattern: name_pat("xs"), default: None, rest: true }],
        body: Box::new(id("xs")),
        async_: false,
    };
    assert_eq!(
        lower(&rest),
        Err(LowerError::Unsupported("rest parameter in arrow function (pass explicit arguments instead)".to_string()))
    );
    let f = Expr::Function {
        name: Some("f".to_string()),
        params: vec![Param {
            pattern: Pattern::Array { items: vec![Some(name_pat("x"))], rest: None },
            default: Some(id("pair")),
            rest: false,
        }],
        body: vec![],
    };
    assert_eq!(
        lower(&f),
        Err(LowerError::Unsupported(
            "default on a destructuring pattern in f (destructure first, then default)".to_string()
        ))
    );
}

#[test]
fn async_arrows_split_at_each_await() {
    let body = Expr::Block(vec![
        Expr::Assign {
            target: Box::new(id("x")),
            value: Box::new(Expr::Await {
                value: Box::new(Expr::Call { callee: Box::new(id("f")), args: vec![] }),
                from_return: false,
            }),
        },
        Expr::Call { callee: Box::new(id("g")), args: vec![CallArg::Expr(id("x"))] },
    ]);
    let arrow = Expr::Arrow { params: vec![], body: Box::new(body), async_: true };
    let expected = JsExpr::AsyncFn {
        params: vec![],
        segments: vec![
            JsAsyncSegment {
                stmts: vec![],
                await_expr: Some(Box::new(JsExpr::Call { callee: Box::new(var("f")), args: vec![] })),
                await_bind: Some("x".to_string()),
                await_completes: false,
            },
            JsAsyncSegment {
                stmts: vec![JsExpr::Call { callee: Box::new(var("g")), args: vec![var("x")] }],
                await_expr: None,
                await_bind: None,
                await_completes: false,
            },
        ],
    };
    assert_eq!(lower(&arrow).unwrap(), expected);
    let nested = Expr::Arrow {
        params: vec![],
        body: Box::new(Expr::Binary {
            op: r2n::ast::op::BinOp::Add,
            left: Box::new(Expr::Await { value: Box::new(id("p")), from_return: false }),
            right: Box::new(id("q")),
        }),
        async_: true,
    };
    assert!(matches!(lower(&nested), Err(LowerError::UnsupportedAwait(_))));
}

#[test]
fn destructuring_statements_use_numbered_temporaries() {
    let st = Stmt::Destructure {
        kind: DeclKind::Const,
        pattern: Pattern::Array { items: vec![Some(name_pat("a"))], rest: Some("more".to_string()) },
        value: id("xs"),
    };
    let mut out = Vec::new();
    let mut fresh = 7u64;
    lower_stmt(&st, "f", &Vec::new(), &mut out, &mut fresh).unwrap();
    assert_eq!(fresh, 8);
    assert_eq!(
        out,
        vec![
            JsExpr::Assign { target: Box::new(var("$dst7")), value: Box::new(var("xs")) },
            JsExpr::Assign {
                target: Box::new(var("a")),
                value: Box::new(JsExpr::Index { base: Box::new(var("$dst7")), key: Box::new(JsExpr::Lit(Literal::Int(0))) }),
            },
            JsExpr::Assign {
                target: Box::new(var("more")),
                value: Box::new(JsExpr::Call {
                    callee: Box::new(JsExpr::Get { base: Box::new(var("$dst7")), prop: "$restFrom".to_string() }),
                    args: vec![JsExpr::Lit(Literal::Int(1))],
                }),
            },
        ]
    );
}

#[test]
fn for_loops_become_a_while_with_a_step() {
    let st = Stmt::For {
        init: Some(Box::new(Stmt::Let { name: "i".to_string(), value: Expr::Literal(Literal::Int(0)) })),
        cond: None,
        update: Some(Expr::Update { op: r2n::ast::expr::UpdateOp::Inc, target: Box::new(id("i")), prefix: false }),
        body: vec![Stmt::Break],
    };
    let mut out = Vec::new();
    let mut fresh = 0u64;
    lower_stmt(&st, "f", &Vec::new(), &mut out, &mut fresh).unwrap();
    assert_eq!(
        out,
        vec![
            JsExpr::Assign { target: Box::new(var("i")), value: Box::new(JsExpr::Lit(Literal::Int(0))) },
            JsExpr::While {
                cond: Box::new(JsExpr::Lit(Literal::Bool(true))),
                body: Box::new(JsExpr::Block(vec![JsExpr::Break])),
                step: Some(Box::new(JsExpr::Update { inc: true, target: Box::new(var("i")), prefix: false })),
            },
        ]
    );
}
