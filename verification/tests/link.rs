use r2n::compiler::fsres::fs_candidates;
use r2n::compiler::graph::discover_modules;
use r2n::compiler::link::{LinkError, MemResolver};
use r2n::compiler::plan::{plan_link, LinkPlan};
use r2n::compiler::canon::canonicalize_dyn_imports;
use r2n::compiler::dynamic::dyn_import_specifiers;
use r2n::parser::parse;

fn resolver(modules: &[(&str, &str)]) -> MemResolver {
    let mut r = MemResolver::new();
    for (id, src) in modules {
        r.add(id.to_string(), src.to_string());
    }
    r
}

fn bound(plan: &LinkPlan, module: usize, name: &str) -> Option<usize> {
    plan.layouts[module].names.iter().find(|(n, _)| n == name).map(|(_, g)| *g)
}

fn ids(plan: &LinkPlan) -> Vec<&str> {
    plan.modules.iter().map(|m| m.id.as_str()).collect()
}

#[test]
fn plan_puts_imported_components_in_one_global_table() {
    let entry = r#"
        import { Widget } from "widget";
        component App() {
            return <div><Widget/></div>;
        }
        export default App;
    "#;
    let widget = r#"
        component Widget() {
            return <span>w</span>;
        }
        export { Widget };
    "#;
    let r = resolver(&[("app", entry), ("widget", widget)]);
    let p = plan_link(entry, "app", &r).expect("link");
    assert_eq!(ids(&p), vec!["app", "widget"]);
    assert_eq!(p.component_count, 2, "app + widget");
    assert_eq!(p.root, 0, "entry default is the root");
    assert_eq!(p.layouts[1].base, 1);
    assert_eq!(bound(&p, 0, "App"), Some(0));
    assert_eq!(bound(&p, 0, "Widget"), Some(1), "imported component resolves globally");
}

#[test]
fn plan_binds_named_import_alias() {
    let entry = r#"
        import { Widget as W } from "widget";
        component App() { return <div><W/></div>; }
        export default App;
    "#;
    let widget = "component Widget() { return <span>w</span>; }\nexport { Widget };";
    let r = resolver(&[("app", entry), ("widget", widget)]);
    let p = plan_link(entry, "app", &r).expect("link");
    assert_eq!(bound(&p, 0, "W"), Some(1));
    assert_eq!(bound(&p, 0, "Widget"), None);
}

#[test]
fn plan_deduplicates_diamond_imports() {
    let entry = r#"
        import A from "a";
        import B from "b";
        component App() { return <div><A/><B/></div>; }
        export default App;
    "#;
    let a = "component A() { return <div/>; }\nexport default A;\nimport C from \"c\";";
    let b = "component B() { return <div/>; }\nexport default B;\nimport C from \"c\";";
    let c = "component C() { return <div/>; }\nexport default C;";
    let r = resolver(&[("app", entry), ("a", a), ("b", b), ("c", c)]);
    let p = plan_link(entry, "app", &r).expect("link");
    assert_eq!(ids(&p), vec!["app", "a", "c", "b"], "C is linked once, in discovery order");
    assert_eq!(p.component_count, 4);
    assert_eq!(bound(&p, 0, "A"), Some(1));
    assert_eq!(bound(&p, 0, "B"), Some(3));
    assert_eq!(bound(&p, 1, "C"), Some(2));
    assert_eq!(bound(&p, 3, "C"), Some(2));
}

#[test]
fn plan_reports_import_cycle_path() {
    let entry = "import A from \"a\";\ncomponent App() { return <div><A/></div>; }\nexport default App;";
    let a = "component A() { return <div/>; }\nexport default A;\nimport B from \"b\";";
    let b = "component B() { return <div/>; }\nexport default B;\nimport A from \"a\";";
    let r = resolver(&[("app", entry), ("a", a), ("b", b)]);
    match plan_link(entry, "app", &r) {
        Err(LinkError::ImportCycle(path)) => assert_eq!(path, vec!["a", "b", "a"]),
        Err(e) => panic!("got: {}", e.to_string()),
        Ok(_) => panic!("a cycle must not link"),
    }
    let err = discover_modules(entry, "app", &r).err().expect("cycle");
    assert_eq!(err.to_string(), "import cycle: a -> b -> a");
}

#[test]
fn plan_reports_unknown_export() {
    let entry = "import { Nope } from \"widget\";\ncomponent App() { return <div/>; }\nexport default App;";
    let widget = "component Widget() { return <span/>; }\nexport { Widget };";
    let r = resolver(&[("app", entry), ("widget", widget)]);
    match plan_link(entry, "app", &r) {
        Err(LinkError::UnknownExport { module, exported }) => {
            assert_eq!(module, "app");
            assert_eq!(exported, "Nope");
        }
        _ => panic!("expected an unknown export"),
    }
}

#[test]
fn plan_uses_sole_entry_component_without_default() {
    let entry = "import { Widget } from \"widget\";\ncomponent App() { return <div><Widget/></div>; }";
    let widget = "component Widget() { return <span/>; }\nexport { Widget };";
    let r = resolver(&[("app", entry), ("widget", widget)]);
    let p = plan_link(entry, "app", &r).expect("sole entry component is the root");
    assert_eq!(p.root, 0);
}

#[test]
fn plan_needs_a_default_with_several_components() {
    let entry = "component App() { return <div/>; }\ncomponent Other() { return <span/>; }";
    let r = resolver(&[("app", entry)]);
    match plan_link(entry, "app", &r) {
        Err(LinkError::NoDefault(m)) => assert_eq!(m, "app"),
        _ => panic!("expected no default"),
    }
}

#[test]
fn plan_binds_default_import() {
    let entry = "import Widget from \"widget\";\ncomponent App() { return <div><Widget/></div>; }\nexport default App;";
    let widget = "component Widget() { return <span>w</span>; }\nexport default Widget;";
    let r = resolver(&[("app", entry), ("widget", widget)]);
    let p = plan_link(entry, "app", &r).expect("link");
    assert_eq!(bound(&p, 0, "Widget"), Some(1));
}

#[test]
fn plan_discovers_dynamically_imported_module() {
    let entry = r#"
        component App() {
            const m = import("lazy");
            return <div>{m.Lazy}</div>;
        }
        export default App;
    "#;
    let lazy = "component Lazy() { return <span>lazy</span>; }\nexport { Lazy };";
    let r = resolver(&[("app", entry), ("lazy", lazy)]);
    let p = plan_link(entry, "app", &r).expect("link");
    assert_eq!(ids(&p), vec!["app", "lazy"]);
    assert_eq!(p.component_count, 2);
    assert_eq!(p.layouts[1].base, 1);
}

#[test]
fn plan_skips_external_packages() {
    let entry = "import { useState } from \"react\";\nimport \"./app.css\";\ncomponent App() { return <div/>; }\nexport default App;";
    let r = resolver(&[("app", entry)]);
    let p = plan_link(entry, "app", &r).expect("externals are runtime builtins");
    assert_eq!(ids(&p), vec!["app"]);
}

#[test]
fn dynamic_specifiers_in_traversal_order() {
    let src = r#"
        component App() {
            let a = import("one");
            if (a) { let b = [import("two"), f(import("three"))]; }
            return <div id={import("five")}>{import("four")}</div>;
        }
        export default App;
    "#;
    let prog = parse(src).expect("parses");
    assert_eq!(dyn_import_specifiers(&prog), vec!["one", "two", "three", "four", "five"]);
}

#[test]
fn every_bound_component_lies_in_the_table() {
    let entry = r#"
        import Card, { Badge as B, helper } from "ui";
        import { Page } from "pages";
        component App() { return <Page><Card/><B/></Page>; }
        export default App;
    "#;
    let ui = r#"
        component Card() { return <div/>; }
        component Badge() { return <span/>; }
        function helper() { return 1; }
        export default Card;
        export { Badge, helper };
    "#;
    let pages = r#"
        import { Badge } from "ui";
        component Page() { return <main><Badge/></main>; }
        export { Page };
    "#;
    let r = resolver(&[("app", entry), ("ui", ui), ("pages", pages)]);
    let p = plan_link(entry, "app", &r).expect("link");
    assert_eq!(p.component_count, 4);
    assert_eq!(bound(&p, 0, "helper"), None, "a plain function binds no component");
    for layout in &p.layouts {
        for (_, g) in &layout.names {
            assert!(*g < p.component_count);
        }
    }
}

#[test]
fn dynamic_imports_are_rewritten_to_canonical_ids() {
    let entry = r#"
        component App() {
            const m = import("./pages/../lazy");
            return <div>{m.Lazy}{import("pkg")}</div>;
        }
        export default App;
    "#;
    let lazy = "component Lazy() { return <span>lazy</span>; }\nexport { Lazy };";
    let r = resolver(&[("app", entry), ("lazy", lazy)]);
    let p = plan_link(entry, "app", &r).expect("link");
    assert_eq!(ids(&p), vec!["app", "lazy"]);
    assert_eq!(dyn_import_specifiers(&p.modules[0].program), vec!["lazy", "pkg"]);
}

#[test]
fn canonicalize_rewrites_only_mapped_specifiers() {
    let src = r#"
        component App() {
            let a = import("./one");
            while (a) { a = f(import("./two"), import("./one")); }
            return <div x={import("three")}>{import("./two")}</div>;
        }
        export default App;
    "#;
    let mut prog = parse(src).expect("parses");
    let before = parse(src).expect("parses");
    let canon = vec![
        ("./one".to_string(), "one".to_string()),
        ("./two".to_string(), "two".to_string()),
        ("./one".to_string(), "ignored".to_string()),
    ];
    canonicalize_dyn_imports(&mut prog, &canon);
    assert_eq!(dyn_import_specifiers(&prog), vec!["one", "two", "one", "two", "three"]);
    assert_eq!(prog.root, before.root);
    assert_eq!(prog.decls.len(), before.decls.len());
    canonicalize_dyn_imports(&mut prog, &Vec::new());
    assert_eq!(dyn_import_specifiers(&prog), vec!["one", "two", "one", "two", "three"]);
}

#[test]
fn normalizing_twice_is_normalizing_once() {
    use_normalize_cases();
}

fn use_normalize_cases() {
    for p in ["a/./b/../c", "../../x//y/", "./", "", "/abs/../..", "a\\b\\..\\c", "..", "x/../../y"] {
        let once = r2n::compiler::link::normalize_path(p);
        assert_eq!(r2n::compiler::link::normalize_path(&once), once, "path {p:?}");
    }
    assert_eq!(r2n::compiler::link::normalize_path("a/./b/../c"), "a/c");
    assert_eq!(r2n::compiler::link::normalize_path("./"), ".");
}

#[test]
fn plan_lists_each_modules_component_exports_by_name() {
    let entry = r#"import { Widget } from "widget"; component App(){return <div><Widget/></div>;} export default App;"#;
    let widget = r#"component Widget(){return <span>w</span>;} export { Widget };"#;
    let r = resolver(&[("app", entry), ("widget", widget)]);
    let p = plan_link(entry, "app", &r).expect("link");
    assert_eq!(ids(&p), vec!["app", "widget"]);
    assert_eq!(p.layouts[0].exports, vec![("default".to_string(), 0)]);
    assert_eq!(p.layouts[1].exports, vec![("Widget".to_string(), 1)]);
    let many = r#"
        component B() { return <p/>; }
        component A() { return <p/>; }
        const z = 1;
        export { B, A as Zed, z };
        export default B;
    "#;
    let r2 = resolver(&[("m", many)]);
    let p2 = plan_link(many, "m", &r2).expect("link");
    assert_eq!(
        p2.layouts[0].exports,
        vec![("B".to_string(), 0), ("Zed".to_string(), 1), ("default".to_string(), 0)]
    );
}

#[test]
fn normalized_paths_have_canonical_segments() {
    for p in ["a/./b/../c", "../../x//y/", "./", "", "/abs/../..", "a\\b\\..\\c", "..", "x/../../y", "../a/.."] {
        let n = r2n::compiler::link::normalize_path(p);
        assert!(!n.is_empty());
        assert!(!n.contains('\\'));
        if n != "." {
            let segs: Vec<&str> = n.split('/').collect();
            assert!(segs.iter().all(|s| !s.is_empty() && *s != "."), "{p:?} -> {n:?}");
            let first_real = segs.iter().position(|s| *s != "..").unwrap_or(segs.len());
            assert!(segs[first_real..].iter().all(|s| *s != ".."), "{p:?} -> {n:?}");
        }
    }
}

#[test]
fn filesystem_candidates_follow_the_importer_directory() {
    assert_eq!(
        fs_candidates("./widget", "src/app.r2n", "/root").unwrap(),
        vec!["src/widget.r2n".to_string(), "src/widget.js".to_string(), "src/widget.jsx".to_string()]
    );
    assert_eq!(fs_candidates("../lib/x.js", "/p/src/app.r2n", "/root").unwrap(), vec!["p/lib/x.js".to_string()]);
    assert_eq!(fs_candidates("./w", "app.r2n", "/root").unwrap()[0], "root/w.r2n");
    assert_eq!(fs_candidates("/abs/m", "src/a.r2n", "/root").unwrap()[2], "abs/m.jsx");
    assert!(matches!(fs_candidates("react", "app.r2n", "."), Err(LinkError::Resolve { .. })));
}
