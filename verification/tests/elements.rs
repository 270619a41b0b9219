use r2n::ast::expr::{CallArg, Element, Expr, Prop};
use r2n::ast::lit::Literal;
use r2n::ast::op::BinOp;
use r2n::ast::program::{Param, Pattern};
use r2n::ir::element::{lower_child, lower_element};
use r2n::ir::js::JsExpr;
use r2n::ir::lower::LowerError;
use r2n::ir::react::{ComponentRef, ReactNode};

fn id(n: &str) -> Expr {
    Expr::Ident { name: n.to_string(), is_component: false }
}

fn var(n: &str) -> JsExpr {
    JsExpr::Var(n.to_string())
}

fn el(tag: &str, props: Vec<Prop>, children: Vec<Expr>) -> Element {
    let is_component = tag.chars().next().map_or(false, |c| c.is_uppercase()) || tag.contains('.');
    Element { tag: tag.to_string(), is_component, props, children }
}

fn prop(name: &str, value: Option<Expr>) -> Prop {
    Prop { name: name.to_string(), value }
}

fn lower(e: &Element, index: &[(&str, usize)], locals: &[&str]) -> Result<ReactNode, LowerError> {
    let index: Vec<(String, usize)> = index.iter().map(|(n, i)| (n.to_string(), *i)).collect();
    let locals: Vec<String> = locals.iter().map(|n| n.to_string()).collect();
    let mut fresh = 0u64;
    lower_element(e, &index, &locals, &mut fresh)
}

#[test]
fn host_elements_lower_their_props_and_children() {
    let e = el("div", vec![prop("id", Some(id("x"))), prop("hidden", None)], vec![Expr::Element(el("span", vec![], vec![]))]);
    assert_eq!(
        lower(&e, &[], &[]).unwrap(),
        ReactNode::Host {
            tag: "div".to_string(),
            props: vec![("id".to_string(), var("x")), ("hidden".to_string(), JsExpr::Lit(Literal::Bool(true)))],
            children: vec![ReactNode::Host { tag: "span".to_string(), props: vec![], children: vec![] }],
        }
    );
}

#[test]
fn component_tags_resolve_through_the_table_or_locals() {
    let app = el("App", vec![], vec![]);
    assert_eq!(lower(&app, &[("App", 3)], &[]).unwrap(), ReactNode::Component { component: ComponentRef(3), props: vec![] });
    assert_eq!(lower(&app, &[], &["App"]).unwrap(), ReactNode::ComponentExpr { component: var("App"), props: vec![] });
    let missing = el("Missing", vec![], vec![]);
    assert_eq!(lower(&missing, &[("App", 0)], &[]), Err(LowerError::UnknownComponent("Missing".to_string())));
    let member = el("ns.Widget", vec![], vec![]);
    assert_eq!(
        lower(&member, &[], &["ns"]).unwrap(),
        ReactNode::ComponentExpr {
            component: JsExpr::Get { base: Box::new(var("ns")), prop: "Widget".to_string() },
            props: vec![],
        }
    );
    assert_eq!(lower(&member, &[("ns.Widget", 1)], &[]), Err(LowerError::UnknownComponent("ns.Widget".to_string())));
}

#[test]
fn component_children_become_a_children_prop() {
    let e = el("Card", vec![], vec![Expr::Element(el("b", vec![], vec![]))]);
    assert_eq!(
        lower(&e, &[("Card", 2)], &[]).unwrap(),
        ReactNode::Component {
            component: ComponentRef(2),
            props: vec![(
                "children".to_string(),
                JsExpr::Children(vec![ReactNode::Host { tag: "b".to_string(), props: vec![], children: vec![] }]),
            )],
        }
    );
}

#[test]
fn special_tags() {
    let frag = el("", vec![prop("id", None)], vec![]);
    assert_eq!(lower(&frag, &[], &[]), Err(LowerError::InvalidFragmentProp("id".to_string())));
    let keyed = el("", vec![prop("key", Some(id("k")))], vec![id("children")]);
    assert_eq!(
        lower(&keyed, &[], &[]).unwrap(),
        ReactNode::Fragment { key: Some(var("k")), children: vec![ReactNode::Children] }
    );
    let suspense = el("Suspense", vec![], vec![]);
    assert_eq!(lower(&suspense, &[], &[]), Err(LowerError::NonRenderableReturn("Suspense requires fallback".to_string())));
    let portal = el("Portal", vec![prop("target", Some(Expr::Literal(Literal::String("modal".to_string()))))], vec![]);
    assert_eq!(lower(&portal, &[], &[]).unwrap(), ReactNode::Portal { target: "modal".to_string(), children: vec![] });
    let bad_portal = el("Portal", vec![prop("target", Some(id("t")))], vec![]);
    assert!(matches!(lower(&bad_portal, &[], &[]), Err(LowerError::NonRenderableReturn(_))));
    let provider = el("Ctx.Provider", vec![prop("value", Some(id("v")))], vec![]);
    assert_eq!(
        lower(&provider, &[], &[]).unwrap(),
        ReactNode::ContextProvider { ctx: var("Ctx"), value: var("v"), children: vec![] }
    );
    let strict = el("StrictMode", vec![], vec![id("x")]);
    assert_eq!(lower(&strict, &[], &[]).unwrap(), ReactNode::StrictMode { children: vec![ReactNode::Text(var("x"))] });
}

#[test]
fn mapped_lists_become_keyed_list_nodes() {
    let item = el(
        "li",
        vec![prop("key", Some(Expr::Member { base: Box::new(id("x")), prop: "id".to_string() }))],
        vec![id("x")],
    );
    let arrow = Expr::Arrow {
        params: vec![Param { pattern: Pattern::Name { name: "x".to_string(), default: None }, default: None, rest: false }],
        body: Box::new(Expr::Element(item)),
        async_: false,
    };
    let map = Expr::Call {
        callee: Box::new(Expr::Member { base: Box::new(id("xs")), prop: "map".to_string() }),
        args: vec![CallArg::Expr(arrow)],
    };
    let ul = el("ul", vec![], vec![map]);
    let key = || JsExpr::Get { base: Box::new(var("$item")), prop: "id".to_string() };
    assert_eq!(
        lower(&ul, &[], &[]).unwrap(),
        ReactNode::Host {
            tag: "ul".to_string(),
            props: vec![],
            children: vec![ReactNode::List {
                items: var("xs"),
                key_expr: key(),
                item: Box::new(ReactNode::Host {
                    tag: "li".to_string(),
                    props: vec![("key".to_string(), key())],
                    children: vec![ReactNode::Text(var("$item"))],
                }),
            }],
        }
    );
}

#[test]
fn short_circuits_render_the_node_or_nothing() {
    let and = Expr::Binary { op: BinOp::And, left: Box::new(id("ok")), right: Box::new(Expr::Element(el("b", vec![], vec![]))) };
    let b = || ReactNode::Host { tag: "b".to_string(), props: vec![], children: vec![] };
    let nothing = || ReactNode::Fragment { key: None, children: vec![] };
    let mut fresh = 0u64;
    assert_eq!(
        lower_child(&and, &Vec::new(), &Vec::new(), &mut fresh).unwrap(),
        ReactNode::If { cond: var("ok"), then: Box::new(b()), else_: Box::new(nothing()) }
    );
    let or = Expr::Binary { op: BinOp::Or, left: Box::new(Expr::Element(el("b", vec![], vec![]))), right: Box::new(id("ok")) };
    assert_eq!(
        lower_child(&or, &Vec::new(), &Vec::new(), &mut fresh).unwrap(),
        ReactNode::If { cond: var("ok"), then: Box::new(nothing()), else_: Box::new(b()) }
    );
    let plus = Expr::Binary { op: BinOp::Add, left: Box::new(id("a")), right: Box::new(id("b")) };
    assert!(matches!(lower_child(&plus, &Vec::new(), &Vec::new(), &mut fresh).unwrap(), ReactNode::Text(_)));
}
