use r2n::ast::program::Pattern;
use r2n::compiler::link::{
    is_external_specifier, normalize_path, sole_entry_component, static_import_specifiers, LinkError,
    MemResolver, ModuleResolver,
};
use r2n::compiler::CompileError;
use r2n::ir::js::{lower_binop, lower_unop, JsBinOp, JsUnOp};
use r2n::ir::lower::{binding_names, component_fn_of, plain_param_names, LowerError};
use r2n::ir::react::ComponentRef;
use r2n::ir::runtime::{ArtifactManifest, TemplateNodeId, ARTIFACT_FORMAT_VERSION};
use r2n::parser::parse;
use r2n::parser::parser::Parser;
use r2n::ast::op::{BinOp, UnOp};

#[test]
fn js_operators_are_spelled_like_javascript() {
    assert_eq!(JsBinOp::StrictNeq.as_str(), "!==");
    assert_eq!(JsBinOp::Nullish.as_str(), "??");
    assert_eq!(JsBinOp::BitOr.as_str(), "|");
    assert_eq!(JsUnOp::Not.as_str(), "!");
}

#[test]
fn lowering_keeps_operator_spelling() {
    let ops = [
        BinOp::Add, BinOp::Sub, BinOp::Mul, BinOp::Div, BinOp::Mod, BinOp::Eq, BinOp::Neq,
        BinOp::StrictEq, BinOp::StrictNeq, BinOp::Lt, BinOp::Gt, BinOp::Le, BinOp::Ge,
        BinOp::And, BinOp::Or, BinOp::Nullish, BinOp::BitOr,
    ];
    for op in ops {
        assert_eq!(lower_binop(op).as_str(), op.as_str());
    }
    assert_eq!(lower_binop(BinOp::Le), JsBinOp::Le);
    assert_eq!(lower_unop(UnOp::Neg), JsUnOp::Neg);
    assert_eq!(lower_unop(UnOp::Not).as_str(), "!");
}

#[test]
fn component_ref_and_node_ids() {
    assert_eq!(ComponentRef(7).index(), 7);
    assert_eq!(TemplateNodeId(3), TemplateNodeId(3));
    let m = ArtifactManifest::default();
    assert_eq!(m.format_version, 0);
    assert_eq!(m.compiler_version, (0, 0, 0));
    assert_eq!(ARTIFACT_FORMAT_VERSION, 1);
}

#[test]
fn lower_error_messages() {
    assert_eq!(LowerError::UnknownComponent("Foo".to_string()).to_string(), "unknown component 'Foo'");
    assert_eq!(
        LowerError::InvalidFragmentProp("id".to_string()).to_string(),
        "fragment `<>` accepts only `key`, got `id`"
    );
    assert_eq!(LowerError::Unsupported("x".to_string()).to_string(), "unsupported construct: x");
}

fn first_let_pattern(src: &str) -> Pattern {
    let prog = parse(src).expect("parses");
    match &prog.decls[0] {
        r2n::ast::program::Decl::TopLevel { pattern, .. } => {
            let mut out = Vec::new();
            r2n::ir::lower::pattern_names(pattern, &mut out);
            assert_eq!(out, binding_names(pattern));
            match pattern {
                Pattern::Name { name, .. } => Pattern::Name { name: name.clone(), default: None },
                _ => parse_pattern_again(src),
            }
        }
        _ => panic!("expected a top-level binding"),
    }
}

fn parse_pattern_again(src: &str) -> Pattern {
    let prog = parse(src).expect("parses");
    match prog.decls.into_iter().next() {
        Some(r2n::ast::program::Decl::TopLevel { pattern, .. }) => pattern,
        _ => panic!("expected a top-level binding"),
    }
}

#[test]
fn binding_names_follow_source_order() {
    let p = first_let_pattern(
        "let {a, b: [c, , d], e = 1, ...rest} = obj; component A() { return <div/>; } export default A;",
    );
    assert_eq!(binding_names(&p), vec!["a", "c", "d", "e", "rest"]);
    let q = first_let_pattern("let x = 1; component A() { return <div/>; } export default A;");
    assert_eq!(binding_names(&q), vec!["x"]);
}

#[test]
fn plain_parameter_names_skip_patterns() {
    let prog = parse("function f(a, {b}, c = 2, ...d) { return a; } component A() { return <div/>; } export default A;")
        .expect("parses");
    match &prog.decls[0] {
        r2n::ast::program::Decl::FuncDecl(f) => {
            assert_eq!(plain_param_names(&f.params), vec!["a", "c", "d"]);
        }
        _ => panic!("expected a function"),
    }
}

#[test]
fn memo_wrapped_function_is_component_shaped() {
    let src = "export const Item = memo(memo(function Item(x) { return x; })); export const N = 3; component A() { return <div/>; } export default A;";
    let prog = parse(src).expect("parses");
    match &prog.decls[0] {
        r2n::ast::program::Decl::ExportDecl(r2n::ast::program::ExportDecl::Const { value, .. }) => {
            let (params, body) = component_fn_of(value).expect("component shaped");
            assert_eq!(params.len(), 1);
            assert_eq!(body.len(), 1);
        }
        _ => panic!("expected an exported const"),
    }
    match &prog.decls[1] {
        r2n::ast::program::Decl::ExportDecl(r2n::ast::program::ExportDecl::Const { value, .. }) => {
            assert!(component_fn_of(value).is_none());
        }
        _ => panic!("expected an exported const"),
    }
}

#[test]
fn external_specifiers() {
    assert!(is_external_specifier("react"));
    assert!(is_external_specifier("react-router-dom/server"));
    assert!(is_external_specifier("./styles.css"));
    assert!(!is_external_specifier("./widget"));
    assert!(!is_external_specifier("/abs/widget"));
    assert!(!is_external_specifier("C:/proj/widget"));
    assert!(is_external_specifier("é:x"));
}

#[test]
fn normalize_path_resolves_dots() {
    assert_eq!(normalize_path("a/./b/../c"), "a/c");
    assert_eq!(normalize_path("../../x"), "../../x");
    assert_eq!(normalize_path("a\\b\\..\\c"), "a/c");
    assert_eq!(normalize_path(""), ".");
    assert_eq!(normalize_path("./"), ".");
    assert_eq!(normalize_path("/x//y/"), "x/y");
    assert_eq!(normalize_path("a/../.."), "..");
}

#[test]
fn mem_resolver_resolves_and_loads() {
    let mut r = MemResolver::new();
    r.add("app".to_string(), "component App() { return <div/>; } export default App;".to_string());
    r.add("lib/widget".to_string(), "old".to_string());
    r.add("lib/widget".to_string(), "new".to_string());
    assert_eq!(r.resolve("app", "x").unwrap(), "app");
    assert_eq!(r.resolve("./lib/../lib/widget", "app").unwrap(), "lib/widget");
    assert_eq!(r.resolve("./widget", "lib/main").unwrap(), "lib/widget");
    assert_eq!(r.load("lib/widget").unwrap(), "new");
    match r.resolve("missing", "app") {
        Err(LinkError::Resolve { from, specifier, reason }) => {
            assert_eq!(from, "app");
            assert_eq!(specifier, "missing");
            assert_eq!(reason, "no such module in resolver");
        }
        _ => panic!("expected a resolve error"),
    }
    match r.load("nope") {
        Err(e) => assert_eq!(e.to_string(), "load error: no source for module 'nope'"),
        Ok(_) => panic!("expected a load error"),
    }
}

#[test]
fn link_error_messages() {
    let cyc = LinkError::ImportCycle(vec!["a".to_string(), "b".to_string(), "a".to_string()]);
    assert_eq!(cyc.to_string(), "import cycle: a -> b -> a");
    let unk = LinkError::UnknownExport { module: "app".to_string(), exported: "W".to_string() };
    assert_eq!(unk.to_string(), "module 'app' has no export 'W'");
    let err = parse("component A() {").expect_err("unterminated");
    match LinkError::from_parse(&err) {
        LinkError::Parse(m) => assert_eq!(m, err.to_string()),
        _ => panic!("expected a parse error"),
    }
    assert_eq!(CompileError::Lower("x".to_string()).to_string(), "lower error: x");
    assert_eq!(CompileError::from_parse(&err).to_string(), format!("parse error: {}", err.to_string()));
}

#[test]
fn parse_error_one_line_text() {
    let err = r2n::parser::error::ParseError::new(3, 14, "expected `;`".to_string());
    assert_eq!(err.to_string(), "parse error at 3:14: expected `;`");
}

#[test]
fn module_facts() {
    let chars: Vec<char> = r#"
        import { Widget } from "./widget";
        import "./styles.css";
        export function App() { return <div/>; }
    "#
    .chars()
    .collect();
    let mut p = Parser::new(&chars).expect("lexes");
    let prog = p.parse_module().expect("parses");
    assert_eq!(static_import_specifiers(&prog), vec!["./widget", "./styles.css"]);
    assert_eq!(sole_entry_component(&prog).as_deref(), Some("App"));
    let two = parse("component A() { return <div/>; } class B extends Component { render() { return <p/>; } } export default A;")
        .expect("parses");
    assert_eq!(sole_entry_component(&two), None);
}
