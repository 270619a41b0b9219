use r2n::compiler::{collect_diagnostics, compile_source, compile_source_dev, CompileError};
use r2n::ir::react::ReactNode;

#[test]
fn lowers_counter_to_template() {
    let src = r#"
        component Counter() {
            let count = useState(0);
            let n = count[0];
            return <div className="counter"><h1>{n}</h1></div>;
        }
        export default Counter;
    "#;
    let t = compile_source(src).expect("compile");
    assert_eq!(t.components.len(), 1);
    assert_eq!(t.root, 0);
    assert_eq!(t.components[0].name, "Counter");
}

#[test]
fn lowers_list_into_keyed_list_node() {
    let src = r#"
        component List() {
            let items = ["a", "b"];
            return <ul>{items.map((x) => <li key={x}>{x}</li>)}</ul>;
        }
        export default List;
    "#;
    let t = compile_source(src).expect("compile");
    let body = &t.components[0].body;
    match body {
        ReactNode::Host { children, .. } => {
            assert_eq!(children.len(), 1);
            assert!(matches!(children[0], ReactNode::List { .. }));
        }
        other => panic!("expected host root, got {other:?}"),
    }
}

#[test]
fn unknown_component_is_a_lower_error() {
    let src = r#"
        component App() {
            return <Missing/>;
        }
        export default App;
    "#;
    assert!(compile_source(src).is_err());
}

#[test]
fn clean_parse_reports_the_lowering_error() {
    let src = "component App() { return <Missing/>; } export default App;";
    assert_eq!(collect_diagnostics(src).unwrap(), vec!["lower error: unknown component 'Missing'".to_string()]);
}

#[test]
fn lowering_error_text_is_carried_by_compile() {
    let src = "component App() { return <Missing/>; } export default App;";
    match compile_source(src) {
        Err(CompileError::Lower(m)) => assert_eq!(m, "unknown component 'Missing'"),
        other => panic!("expected a lowering error, got {other:?}"),
    }
}

#[test]
fn root_is_the_default_export_slot_and_table_is_in_declaration_order() {
    let src = r#"
        component A() { return <div/>; }
        component B() { return <span><A/></span>; }
        export default B;
    "#;
    let t = compile_source(src).expect("compile");
    assert_eq!(t.components.len(), 2);
    assert_eq!(t.components[0].name, "A");
    assert_eq!(t.components[1].name, "B");
    assert_eq!(t.root, 1);
    assert!(!t.strict_mode);
    assert_eq!(t.manifest.format_version, r2n::ir::runtime::ARTIFACT_FORMAT_VERSION);
}

#[test]
fn production_strips_strict_mode_and_dev_keeps_it() {
    let src = "component App() { return <StrictMode><div/></StrictMode>; } export default App;";
    let prod = compile_source(src).expect("compile");
    assert!(matches!(prod.components[0].body, ReactNode::Fragment { .. }));
    assert!(!prod.strict_mode);
    let dev = compile_source_dev(src).expect("compile");
    assert!(matches!(dev.components[0].body, ReactNode::StrictMode { .. }));
    assert!(dev.strict_mode);
}

#[test]
fn component_without_renderable_return_is_an_error() {
    let src = "component App() { let x = 1; return x; } export default App;";
    match compile_source(src) {
        Err(CompileError::Lower(m)) => {
            assert_eq!(m, "non-renderable return: component App returns a non-renderable expression")
        }
        other => panic!("expected a lowering error, got {other:?}"),
    }
}

#[test]
fn react_class_renders_through_render_method() {
    let src = r#"
        class Hello extends Component {
            render() { return <p>hi</p>; }
            greet() { return 1; }
        }
        export default Hello;
    "#;
    let t = compile_source(src).expect("compile");
    assert_eq!(t.components[0].name, "Hello");
    assert!(matches!(t.components[0].body, ReactNode::Host { .. }));
    let class = t.components[0].class.as_ref().expect("class info");
    assert_eq!(class.methods.len(), 1);
    assert_eq!(class.methods[0].0, "greet");
}

#[test]
fn functions_and_top_level_values_are_lowered() {
    let src = r#"
        function add(a, b) { return a + b; }
        const limit = 3;
        component App() { return <div/>; }
        export default App;
    "#;
    let t = compile_source(src).expect("compile");
    assert_eq!(t.functions.len(), 1);
    assert_eq!(t.functions[0].name, "add");
    assert_eq!(t.functions[0].params, vec!["a".to_string(), "b".to_string()]);
    assert_eq!(t.top_levels.len(), 1);
    assert_eq!(t.top_levels[0].0, "limit");
}

#[test]
fn missing_root_is_an_unknown_component() {
    let src = "component App() { return <div/>; } export default Nope;";
    match compile_source(src) {
        Err(CompileError::Lower(m)) => assert_eq!(m, "unknown component 'Nope'"),
        other => panic!("expected a lowering error, got {other:?}"),
    }
}

#[test]
fn generator_body_splits_at_each_yield() {
    let src = r#"
        function* count() { let x = yield 1; yield x; return 2; }
        component App() { return <div/>; }
        export default App;
    "#;
    let t = compile_source(src).expect("compile");
    assert_eq!(t.generators.len(), 1);
    assert_eq!(t.generators[0].name, "count");
    let segs = &t.generators[0].segments;
    assert_eq!(segs.len(), 3);
    assert_eq!(segs[0].await_bind.as_deref(), Some("x"));
    assert!(segs[1].await_bind.is_none());
    assert_eq!(segs[2].stmts.len(), 1);
}

#[test]
fn component_param_default_becomes_a_guarded_binding() {
    let src = "component App({ a }, b = 1) { return <div/>; } export default App;";
    let t = compile_source(src).expect("compile");
    let c = &t.components[0];
    assert_eq!(c.params, vec!["a".to_string(), "b".to_string()]);
    assert_eq!(c.bindings.len(), 1);
    assert_eq!(c.bindings[0].0, "b");
}

#[test]
fn unsupported_statement_in_render_body_is_an_error() {
    let src = "component App() { while (x) { } return <div/>; } export default App;";
    match compile_source(src) {
        Err(CompileError::Lower(m)) => {
            assert_eq!(m, "unsupported construct: statement in component App render body: while loop")
        }
        other => panic!("expected a lowering error, got {other:?}"),
    }
}
