use r2n::ast::lit::Literal;
use r2n::ir::free::{collect_free, collect_free_node, free_vars_of_body};
use r2n::text::text_less;
use r2n::ir::js::{JsArrayItem, JsBinOp, JsExpr, JsObjectItem, SwitchCase};
use r2n::ir::react::ReactNode;
use r2n::ir::strict::strip_strict;
use r2n::ir::subst::{subst_expr, subst_node};

fn var(n: &str) -> JsExpr {
    JsExpr::Var(n.to_string())
}

fn bx(e: JsExpr) -> Box<JsExpr> {
    Box::new(e)
}

fn names(v: &[&str]) -> Vec<String> {
    v.iter().map(|s| s.to_string()).collect()
}

fn free_of(e: &JsExpr, bound: &[&str]) -> Vec<String> {
    let mut out = Vec::new();
    collect_free(e, &names(bound), &mut out);
    out
}

#[test]
fn free_names_come_in_reading_order_without_repeats() {
    let e = JsExpr::Block(vec![var("b"), var("a"), var("b")]);
    assert_eq!(free_of(&e, &[]), names(&["b", "a"]));
    let mut out = names(&["a"]);
    collect_free(&e, &Vec::new(), &mut out);
    assert_eq!(out, names(&["a", "b"]));
}

#[test]
fn bound_names_and_closure_params_are_not_free() {
    let call = JsExpr::Call { callee: bx(var("f")), args: vec![var("a"), JsExpr::SpreadArg(bx(var("c")))] };
    assert_eq!(free_of(&call, &["a"]), names(&["f", "c"]));
    let closure = JsExpr::Closure {
        params: names(&["x"]),
        captures: vec![],
        body: bx(JsExpr::Bin { op: JsBinOp::Add, left: bx(var("x")), right: bx(var("y")) }),
    };
    assert_eq!(free_of(&closure, &[]), names(&["y"]));
}

#[test]
fn a_catch_parameter_is_bound_only_in_its_catch_block() {
    let e = JsExpr::Try {
        block: vec![var("e")],
        catch_param: Some("e".to_string()),
        catch: Some(vec![var("e"), var("z")]),
        finally: Some(vec![var("w")]),
    };
    assert_eq!(free_of(&e, &[]), names(&["e", "z", "w"]));
    let only_catch = JsExpr::Try { block: vec![], catch_param: Some("e".to_string()), catch: Some(vec![var("e")]), finally: None };
    assert_eq!(free_of(&only_catch, &[]), Vec::<String>::new());
}

#[test]
fn object_shorthands_switches_and_nodes_read_their_names() {
    let obj = JsExpr::Object(vec![
        JsObjectItem::Shorthand("k".to_string()),
        JsObjectItem::Prop("p".to_string(), var("v")),
        JsObjectItem::Spread(var("o")),
    ]);
    assert_eq!(free_of(&obj, &[]), names(&["k", "v", "o"]));
    let sw = JsExpr::Switch {
        disc: bx(var("d")),
        cases: vec![SwitchCase { test: var("t"), body: vec![var("b"), JsExpr::Break] }],
        default: Some(vec![var("q")]),
    };
    assert_eq!(free_of(&sw, &["b"]), names(&["d", "t", "q"]));
    let node = ReactNode::Host {
        tag: "div".to_string(),
        props: vec![("id".to_string(), var("a"))],
        children: vec![ReactNode::Text(var("b")), ReactNode::Children],
    };
    let mut out = Vec::new();
    collect_free_node(&node, &Vec::new(), &mut out);
    assert_eq!(out, names(&["a", "b"]));
}

#[test]
fn substitution_renames_every_read() {
    let e = JsExpr::If {
        cond: bx(var("x")),
        then: bx(JsExpr::Get { base: bx(var("x")), prop: "x".to_string() }),
        else_: bx(JsExpr::Array(vec![JsArrayItem::Expr(var("y")), JsArrayItem::Spread(var("x"))])),
    };
    let expected = JsExpr::If {
        cond: bx(var("item")),
        then: bx(JsExpr::Get { base: bx(var("item")), prop: "x".to_string() }),
        else_: bx(JsExpr::Array(vec![JsArrayItem::Expr(var("y")), JsArrayItem::Spread(var("item"))])),
    };
    assert_eq!(subst_expr(e, "x", "item"), expected);
    let obj = JsExpr::Object(vec![JsObjectItem::Shorthand("x".to_string()), JsObjectItem::Prop("x".to_string(), var("x"))]);
    let expected_obj = JsExpr::Object(vec![
        JsObjectItem::Shorthand("item".to_string()),
        JsObjectItem::Prop("x".to_string(), var("item")),
    ]);
    assert_eq!(subst_expr(obj, "x", "item"), expected_obj);
}

#[test]
fn substitution_stops_at_a_catch_parameter_of_the_same_name() {
    let e = JsExpr::Try {
        block: vec![var("e")],
        catch_param: Some("e".to_string()),
        catch: Some(vec![var("e")]),
        finally: Some(vec![var("e")]),
    };
    let expected = JsExpr::Try {
        block: vec![var("err")],
        catch_param: Some("e".to_string()),
        catch: Some(vec![var("e")]),
        finally: Some(vec![var("err")]),
    };
    assert_eq!(subst_expr(e, "e", "err"), expected);
}

#[test]
fn substitution_reaches_into_nodes_and_leaves_literals() {
    let n = ReactNode::List {
        items: var("xs"),
        key_expr: JsExpr::Get { base: bx(var("$item")), prop: "id".to_string() },
        item: Box::new(ReactNode::Text(JsExpr::Bin {
            op: JsBinOp::Add,
            left: bx(var("$item")),
            right: bx(JsExpr::Lit(Literal::String("$item".to_string()))),
        })),
    };
    let expected = ReactNode::List {
        items: var("xs"),
        key_expr: JsExpr::Get { base: bx(var("t")), prop: "id".to_string() },
        item: Box::new(ReactNode::Text(JsExpr::Bin {
            op: JsBinOp::Add,
            left: bx(var("t")),
            right: bx(JsExpr::Lit(Literal::String("$item".to_string()))),
        })),
    };
    assert_eq!(subst_node(n, "$item", "t"), expected);
}

fn strict_tree() -> ReactNode {
    ReactNode::StrictMode {
        children: vec![ReactNode::Host {
            tag: "div".to_string(),
            props: vec![],
            children: vec![
                ReactNode::StrictMode { children: vec![ReactNode::Text(var("a"))] },
                ReactNode::If {
                    cond: var("c"),
                    then: Box::new(ReactNode::StrictMode { children: vec![] }),
                    else_: Box::new(ReactNode::Children),
                },
            ],
        }],
    }
}

fn stripped_tree() -> ReactNode {
    ReactNode::Fragment {
        key: None,
        children: vec![ReactNode::Host {
            tag: "div".to_string(),
            props: vec![],
            children: vec![
                ReactNode::Fragment { key: None, children: vec![ReactNode::Text(var("a"))] },
                ReactNode::If {
                    cond: var("c"),
                    then: Box::new(ReactNode::Fragment { key: None, children: vec![] }),
                    else_: Box::new(ReactNode::Children),
                },
            ],
        }],
    }
}

#[test]
fn strict_mode_wrappers_become_fragments_at_every_depth() {
    assert_eq!(strip_strict(strict_tree()), stripped_tree());
}

#[test]
fn stripping_twice_is_stripping_once() {
    assert_eq!(strip_strict(strip_strict(strict_tree())), strip_strict(strict_tree()));
    let frag = ReactNode::Fragment { key: Some(var("k")), children: vec![ReactNode::StrictMode { children: vec![] }] };
    let same = ReactNode::Fragment { key: Some(var("k")), children: vec![ReactNode::StrictMode { children: vec![] }] };
    assert_eq!(strip_strict(frag), same);
}

#[test]
fn body_free_names_are_sorted_and_exclude_earlier_bindings() {
    let bindings = vec![
        ("a".to_string(), var("x")),
        ("b".to_string(), JsExpr::Bin { op: JsBinOp::Add, left: bx(var("a")), right: bx(var("y")) }),
    ];
    let body = ReactNode::Host {
        tag: "p".to_string(),
        props: vec![("title".to_string(), var("z"))],
        children: vec![ReactNode::Text(var("b")), ReactNode::Text(var("x"))],
    };
    assert_eq!(free_vars_of_body(&bindings, &body), names(&["x", "y", "z"]));
    let late = vec![("n".to_string(), var("n"))];
    assert_eq!(free_vars_of_body(&late, &ReactNode::Text(var("n"))), names(&["n"]));
}

#[test]
fn name_order_is_the_order_of_strings() {
    let mut words = names(&["beta", "Beta", "b", "ä", "alpha", "", "z9", "z10", "日本"]);
    let body = ReactNode::Fragment { key: None, children: words.iter().map(|w| ReactNode::Text(var(w))).collect() };
    let got = free_vars_of_body(&[], &body);
    words.sort();
    words.dedup();
    assert_eq!(got, words);
    for a in &words {
        for b in &words {
            assert_eq!(text_less(a, b), a < b, "{a:?} < {b:?}");
        }
    }
}
