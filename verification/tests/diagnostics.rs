use r2n::ast::program::{Decl, Stmt};
use r2n::compiler::collect_diagnostics;
use r2n::parser::parse;
use r2n::parser::recovery::parse_with_recovery;

fn parity_sources() -> Vec<(&'static str, &'static str)> {
    vec![(
        "full grammar",
        r#"
                import { useState } from "./lib";
                component Outer() {
                    let x = 1 + 2 * 3;
                    let flag = x > 4 && !false;
                    const arr = [1, 2.5, "s", true, null];
                    return <div className="wrap" enabled onClick={() => setN(n + 1)}>
                        <Header title="hi" count={x} />
                        {arr.map((item) => <li key={item}>{item}</li>)}
                        {if flag { "yes" } else { "no" }}
                        plain text child
                        <span>{x == 1 ? "a" : "b"}</span>
                    </div>;
                }
                export default Outer;
            "#,
    )]
}

#[test]
fn recovery_yields_identical_ast_on_valid_sources() {
    for (name, src) in parity_sources() {
        let strict = parse(src).unwrap_or_else(|e| panic!("{name}: strict parse failed: {}", e.to_string()));
        let rec = parse_with_recovery(src)
            .unwrap_or_else(|e| panic!("{name}: recovering parse failed: {}", e.to_string()));
        assert!(
            rec.errors.is_empty(),
            "{name}: recovering parse reported errors on a valid source: {:?}",
            rec.errors
        );
        assert_eq!(strict, rec.program, "{name}: recovering parser produced a different AST");
    }
}

#[test]
fn collects_multiple_statement_errors_in_one_pass() {
    let src = r#"
        component A() {
            let x = ;
            let y = 2;
            return <div>{y}</div>;
        }
        export default A;
    "#;
    let rec = parse_with_recovery(src).expect("lex ok");
    assert!(!rec.errors.is_empty(), "the bad statement must be reported");
    assert_eq!(rec.errors[0].line, 3, "error must be at line 3");
    assert!(
        rec.errors[0].message.contains("expression"),
        "message was: {}",
        rec.errors[0].message
    );
}

#[test]
fn recovery_keeps_valid_statement_after_bad_one() {
    let src = r#"
        component A() {
            let x = ;
            let y = 2;
            return <div>{y}</div>;
        }
        export default A;
    "#;
    let rec = parse_with_recovery(src).expect("lex ok");
    let comp = rec
        .program
        .decls
        .iter()
        .find_map(|d| match d {
            Decl::Component(c) => Some(c),
            _ => None,
        })
        .expect("component A survived recovery");
    let names: Vec<&str> = comp
        .body
        .iter()
        .filter_map(|s| match s {
            Stmt::Let { name, .. } => Some(name.as_str()),
            _ => None,
        })
        .collect();
    assert!(names.contains(&"y"), "valid statement after the bad one must be kept; got {names:?}");
    let has_return = comp.body.iter().any(|s| matches!(s, Stmt::Return(_)));
    assert!(has_return, "the return statement must be kept");
}

#[test]
fn collects_errors_across_multiple_components() {
    let src = r#"
        component A() {
            let x = ;
        }
        component B() {
            return <div/>;
        }
        export default B;
    "#;
    let rec = parse_with_recovery(src).expect("lex ok");
    assert!(!rec.errors.is_empty(), "error in component A must be reported");
    let has_b = rec.program.decls.iter().any(|d| match d {
        Decl::Component(c) => c.name == "B",
        _ => false,
    });
    assert!(has_b, "component B must survive A's failure");
}

#[test]
fn statement_errors_within_one_component_all_reported() {
    let src = r#"
        component A() {
            let a = 1;
            let x = ;
            let b = 2;
            let y = ;
            return <div/>;
        }
        export default A;
    "#;
    let rec = parse_with_recovery(src).expect("lex ok");
    let bad: Vec<usize> = rec.errors.iter().map(|e| e.line).filter(|l| *l != 0).collect();
    assert_eq!(bad, vec![4, 6], "both bad statements (lines 4 and 6) must be reported; got lines {bad:?}");
}

#[test]
fn missing_export_default_reported_once() {
    let src = "component A() { return <div/>; }";
    let rec = parse_with_recovery(src).expect("lex ok");
    assert_eq!(rec.errors.len(), 1);
    assert!(rec.errors[0].message.contains("export default"));
    assert!(rec.has_errors());
}

#[test]
fn failed_declaration_resumes_at_next_declaration() {
    let src = "import { from \"x\";\ncomponent B() { return <p/>; }\nexport default B;\n";
    let rec = parse_with_recovery(src).expect("lex ok");
    assert_eq!(rec.errors.len(), 1);
    assert_eq!(rec.program.root.as_deref(), Some("B"));
    assert_eq!(rec.program.decls.len(), 2);
}

#[test]
fn lexical_failure_is_fatal_for_recovery() {
    let src = "component A() { let s = \"open; }\nexport default A;\n";
    assert!(parse_with_recovery(src).is_err());
}

#[test]
fn diagnostics_are_rendered_per_error() {
    let src = "component A() {\n    let x = ;\n    let y = ;\n}\nexport default A;\n";
    let ds = collect_diagnostics(src).expect("lexes");
    assert_eq!(ds.len(), 2);
    assert!(ds[0].starts_with("error: unexpected `;` in expression\n"), "was:\n{}", ds[0]);
    assert!(ds[0].contains("2 |     let x = ;"), "was:\n{}", ds[0]);
    assert!(ds[1].contains("3 |     let y = ;"), "was:\n{}", ds[1]);
    let clean = "component A() { return <div/>; }\nexport default A;\n";
    assert!(collect_diagnostics(clean).expect("lexes").is_empty());
}

#[test]
fn rendered_diagnostics_match_the_collected_ones() {
    let src = "component App() {\n  let x = ;\n  return <div/>;\n}\nexport default App;";
    let rec = r2n::parser::recovery::parse_with_recovery(src).unwrap();
    assert!(rec.has_errors());
    let shown = r2n::compiler::render_diagnostics(src, &rec.errors);
    assert_eq!(shown.len(), rec.errors.len());
    assert!(shown[0].starts_with("error: "));
    assert_eq!(r2n::compiler::collect_diagnostics(src).unwrap(), shown);
}

#[test]
fn recovery_keeps_the_strict_program_of_a_valid_source() {
    let src = "component A() { let x = 1; return <div>{x}</div>; }\nexport default A;\n";
    let strict = r2n::parser::parse(src).expect("valid");
    let again = r2n::parser::parse(src);
    let rec = r2n::parser::recovery::recover_from(src, again).expect("lexes");
    assert!(rec.errors.is_empty());
    assert_eq!(rec.program, strict);
}
