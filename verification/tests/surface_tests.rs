use typecore::surface::{parse_text, Ast};

fn id(a: &Ast) -> String {
    match a {
        Ast::Id(s) => s.clone(),
        _ => panic!("not an identifier: {:?}", a),
    }
}

#[test]
fn parses_variable() {
    let a = parse_text("x".to_string()).unwrap();
    match a {
        Ast::Var(name) => assert_eq!(id(&name), "x"),
        _ => panic!("{:?}", a),
    }
}

#[test]
fn parses_keyword_as_variable() {
    let a = parse_text("fn".to_string()).unwrap();
    assert!(matches!(a, Ast::Var(_)));
}

#[test]
fn parses_parenthesized() {
    let a = parse_text("  (  ( abc ) )\n".to_string()).unwrap();
    match a {
        Ast::Var(name) => assert_eq!(id(&name), "abc"),
        _ => panic!("{:?}", a),
    }
}

#[test]
fn parses_function() {
    let a = parse_text("fn x : A , y => y".to_string()).unwrap();
    match a {
        Ast::Function(params, body) => {
            match *params {
                Ast::ParamsList(x, Some(ty), Some(rest)) => {
                    assert_eq!(id(&x), "x");
                    assert!(matches!(*ty, Ast::Var(_)));
                    match *rest {
                        Ast::ParamsList(y, None, None) => assert_eq!(id(&y), "y"),
                        r => panic!("{:?}", r),
                    }
                },
                p => panic!("{:?}", p),
            }
            assert!(matches!(*body, Ast::Var(_)));
        },
        _ => panic!("{:?}", a),
    }
}

#[test]
fn parses_pi_type() {
    let a = parse_text("{ x : A } -> B".to_string()).unwrap();
    match a {
        Ast::PiType(x, ty, body) => {
            assert_eq!(id(&x), "x");
            match *ty {
                Ast::Var(n) => assert_eq!(id(&n), "A"),
                t => panic!("{:?}", t),
            }
            match *body {
                Ast::Var(n) => assert_eq!(id(&n), "B"),
                t => panic!("{:?}", t),
            }
        },
        _ => panic!("{:?}", a),
    }
}

#[test]
fn parses_annotation() {
    let a = parse_text("x : A".to_string()).unwrap();
    match a {
        Ast::Ann(t, ty) => {
            assert!(matches!(*t, Ast::Var(_)));
            assert!(matches!(*ty, Ast::Var(_)));
        },
        _ => panic!("{:?}", a),
    }
}

#[test]
fn rejects_empty_text() {
    assert_eq!(parse_text("".to_string()).unwrap_err(), "Parse Error: No Rule completes");
    assert_eq!(parse_text(" \t\n".to_string()).unwrap_err(), "Parse Error: No Rule completes");
}

#[test]
fn rejects_malformed_text() {
    assert!(parse_text(") (".to_string()).is_err());
    assert!(parse_text("x1".to_string()).is_err());
    assert!(parse_text("fn x =>".to_string()).is_err());
    assert!(parse_text("{ x : A }".to_string()).is_err());
    assert!(parse_text("x :".to_string()).is_err());
}

#[test]
fn ast_accessors() {
    let a = parse_text("x : A".to_string()).unwrap();
    let (t, ty) = a.to_ann();
    let name = t.to_var().to_id();
    assert_eq!(name, "x");
    assert_eq!(ty.to_var().to_id(), "A");
    Ast::Dummy.to_dummy();
    let f = parse_text("fn x => x".to_string()).unwrap();
    let (p, _b) = f.to_function();
    let (x, ty, rest) = p.to_paramslist();
    assert_eq!(x.to_id(), "x");
    assert!(ty.is_none() && rest.is_none());
    let pi = parse_text("{ x : A } -> B".to_string()).unwrap();
    let (x, _, _) = pi.to_pitype();
    assert_eq!(x.to_id(), "x");
}

#[test]
fn ambiguous_annotation_splits_at_leftmost_colon() {
    let a = parse_text("a : b : c".to_string()).unwrap();
    match a {
        Ast::Ann(l, r) => {
            match *l {
                Ast::Var(name) => assert_eq!(id(&name), "a"),
                other => panic!("{:?}", other),
            }
            match *r {
                Ast::Ann(m, n) => {
                    assert!(matches!(*m, Ast::Var(_)));
                    assert!(matches!(*n, Ast::Var(_)));
                },
                other => panic!("{:?}", other),
            }
        },
        _ => panic!("{:?}", a),
    }
}

#[test]
fn same_tokens_parse_alike() {
    let a = parse_text("a : b : c".to_string()).unwrap();
    let b = parse_text("\ta\n:  b :\r\n c ".to_string()).unwrap();
    assert_eq!(format!("{:?}", a), format!("{:?}", b));
    assert!(parse_text("x :".to_string()).is_err());
    assert!(parse_text("  x\n\n:".to_string()).is_err());
}

#[test]
fn glued_parentheses_are_one_token() {
    assert!(parse_text("(x)".to_string()).is_err());
    assert!(parse_text("( x )".to_string()).is_ok());
}
