use r2n::ast::program::Import;
use r2n::parser::lexer::{Lexer, TokenKind};

#[test]
fn peeking_looks_ahead_without_consuming() {
    let src: Vec<char> = "ab + 1".chars().collect();
    let mut lx = Lexer::new(&src).expect("lexer");
    assert_eq!(lx.peek(), Some('a'));
    assert_eq!(lx.peek2(), Some('b'));
    assert_eq!(lx.peek(), Some('a'), "peeking does not advance");
    let t = lx.next_token().expect("ident");
    assert!(matches!(t.kind, TokenKind::Ident(ref n) if n == "ab"));
    assert_eq!(lx.peek(), Some(' '));
    assert_eq!(lx.peek2(), Some('+'));
}

#[test]
fn peeking_at_the_end_sees_nothing() {
    let src: Vec<char> = "x".chars().collect();
    let mut lx = Lexer::new(&src).expect("lexer");
    assert_eq!(lx.peek(), Some('x'));
    assert_eq!(lx.peek2(), None);
    lx.next_token().expect("ident");
    assert_eq!(lx.peek(), None);
    assert_eq!(lx.peek2(), None);
}

#[test]
fn side_effect_imports_bind_nothing() {
    let css = Import { default_: None, named: Vec::new(), namespace: None, path: "./app.css".to_string() };
    assert!(css.is_side_effect());
    let named = Import {
        default_: None,
        named: vec![("X".to_string(), "X".to_string())],
        namespace: None,
        path: "x".to_string(),
    };
    assert!(!named.is_side_effect());
    let ns = Import { default_: None, named: Vec::new(), namespace: Some("ns".to_string()), path: "x".to_string() };
    assert!(!ns.is_side_effect());
    let def = Import { default_: Some("D".to_string()), named: Vec::new(), namespace: None, path: "x".to_string() };
    assert!(!def.is_side_effect());
}

#[test]
fn tokens_spell_their_source_text() {
    let src: Vec<char> = "x1 >= \"hi\\n\" // note\n /* a /* nested */ b */ 42 3.25 ...".chars().collect();
    let mut lx = Lexer::new(&src).expect("lexer");
    let mut kinds = Vec::new();
    let mut indices = Vec::new();
    loop {
        let t = lx.next_token().expect("token");
        indices.push(t.index);
        if matches!(t.kind, TokenKind::Eof) {
            break;
        }
        kinds.push(t.kind);
    }
    assert!(matches!(kinds[0], TokenKind::Ident(ref n) if n == "x1"));
    assert!(matches!(kinds[1], TokenKind::GtEq));
    assert!(matches!(kinds[2], TokenKind::String(ref s) if s == "hi\n"));
    assert!(matches!(kinds[3], TokenKind::Int(42)));
    assert!(matches!(kinds[4], TokenKind::Float(ref x) if x == "3.25"));
    assert!(matches!(kinds[5], TokenKind::DotDotDot));
    assert_eq!(kinds.len(), 6);
    assert_eq!(indices[0], 0);
    assert_eq!(indices[1], 3);
    assert_eq!(indices[2], 6);
    assert_eq!(*indices.last().unwrap(), src.len());
}
