use r2n::ast::expr::{CallArg, Expr};
use r2n::ast::program::{Decl, Stmt};
use r2n::parser::lexer::TokenKind;
use r2n::parser::parse;

#[test]
fn lib_parses_counter_component() {
    let src = r#"
            component Counter() {
                return <div className="x">{1 + 2}</div>;
            }
            export default Counter;
        "#;
    let prog = parse(src).expect("should parse");
    assert_eq!(prog.root.as_deref(), Some("Counter"));
    assert_eq!(prog.decls.len(), 2);
}

#[test]
fn parses_number_and_string() {
    let src = r#"
            component App() {
                let n = 3.5;
                return <span title="hi">{n}</span>;
            }
            export default App;
        "#;
    let prog = parse(src).expect("should parse");
    assert_eq!(prog.decls.len(), 2);
}

#[test]
fn reports_missing_export() {
    let src = "component A() { return <div/>; }";
    let err = parse(src);
    assert!(err.is_err());
}

#[test]
fn lib_parses_arrow_in_map() {
    let src = r#"
            component List() {
                return <ul>{items.map((x) => <li key={x}/>)}</ul>;
            }
            export default List;
        "#;
    let prog = parse(src).expect("should parse");
    if let Decl::Component(c) = &prog.decls[0] {
        assert!(matches!(c.body.last(), Some(Stmt::Return(Expr::Element(_)))));
    } else {
        panic!("expected component");
    }
    let body = &prog.decls[0];
    if let Decl::Component(c) = body {
        if let Some(Stmt::Return(Expr::Element(e))) = c.body.last() {
            if let Expr::Call { callee, args } = &e.children[0] {
                assert!(matches!(callee.as_ref(), Expr::Member { .. }));
                assert!(matches!(args[0], CallArg::Expr(Expr::Arrow { .. })));
            } else {
                panic!("expected call to map");
            }
        }
    }
}

#[test]
fn parse_parses_counter_component() {
    let src = r#"
        component Counter() {
            let count = useState(0);
            let n = count[0];
            return <div className="counter"><h1>{n}</h1></div>;
        }
        export default Counter;
    "#;
    let prog = parse(src).expect("should parse");
    assert_eq!(prog.root.as_deref(), Some("Counter"));
    assert_eq!(prog.decls.len(), 2);
}

#[test]
fn parse_parses_arrow_in_map() {
    let src = r#"
        component List() {
            let items = ["a", "b"];
            return <ul>{items.map((x) => <li key={x}>{x}</li>)}</ul>;
        }
        export default List;
    "#;
    let prog = parse(src).expect("should parse");
    assert_eq!(prog.root.as_deref(), Some("List"));
}

#[test]
fn parses_if_else_blocks() {
    let src = r#"
        component App() {
            let n = 3;
            return <p>{if n < 5 { "small" } else { "big" }}</p>;
        }
        export default App;
    "#;
    let prog = parse(src).expect("should parse");
    assert_eq!(prog.decls.len(), 2);
}

#[test]
fn rejects_missing_export_default() {
    let src = "component A() { return <div/>; }";
    assert!(parse(src).is_err());
}

#[test]
fn rejects_unterminated_element() {
    let src = r#"
        component A() {
            return <div>;
        }
        export default A;
    "#;
    assert!(parse(src).is_err());
}

#[test]
fn reports_position_for_unexpected_token() {
    let src = r#"
        component A() {
            let x = ;
        }
        export default A;
    "#;
    let err = parse(src).expect_err("should error");
    assert!(err.line >= 3);
    assert!(err.column > 0);
}

#[test]
fn messages_are_friendly() {
    let src = r#"
        component A() {
            let x = 1
            return x;
        }
        export default A;
    "#;
    let strict_err = parse(src).expect_err("missing `;` is an error");
    assert!(
        strict_err.message.contains("`;`"),
        "message must name `;` with backticks, was: {}",
        strict_err.message
    );
    assert!(
        !strict_err.message.contains("Semicolon"),
        "message must not use the Debug token name, was: {}",
        strict_err.message
    );
}

#[test]
fn describe_names_tokens_friendly() {
    assert_eq!(TokenKind::Semicolon.describe(), "`;`");
    assert_eq!(TokenKind::Arrow.describe(), "`=>`");
    assert_eq!(TokenKind::Eof.describe(), "end of file");
    assert_eq!(TokenKind::Ident("if".into()).describe(), "`if`");
    assert_eq!(TokenKind::Int(3).describe(), "number `3`");
}

#[test]
fn render_draws_caret_at_error_column() {
    let src = "component A() {\n    let x = ;\n}\nexport default A;\n";
    let err = parse(src).expect_err("bad statement");
    let rendered = err.render(src);
    assert!(rendered.contains("let x = ;"), "was:\n{rendered}");
    let line_text = "    let x = ;";
    let semicol_col = line_text.find(';').unwrap();
    let caret_line = rendered
        .lines()
        .find(|l| l.contains('^'))
        .expect("rendered output must contain a caret line");
    let gutter_width = " ".repeat(err.line.to_string().len()) + " | ";
    let caret_in_line = caret_line
        .strip_prefix(gutter_width.as_str())
        .unwrap_or(caret_line)
        .find('^')
        .unwrap();
    assert_eq!(
        caret_in_line, semicol_col,
        "caret must align under the offending token; was:\n{rendered}"
    );
    assert!(rendered.contains("2 |"), "line number must be shown; was:\n{rendered}");
}

#[test]
fn render_handles_multiline_sources() {
    let src = "\n\ncomponent A() {\n    let x = ;\n}\nexport default A;\n";
    let err = parse(src).expect_err("must error");
    assert_eq!(err.line, 4, "error must be on line 4");
    let rendered = err.render(src);
    assert!(rendered.contains("let x = ;"), "was:\n{rendered}");
    assert!(rendered.contains('^'), "was:\n{rendered}");
}

#[test]
fn strict_parse_still_stops_at_first_error() {
    let src = r#"
        component A() {
            let x = ;
            let y = ;
        }
        export default A;
    "#;
    assert!(parse(src).is_err());
}
