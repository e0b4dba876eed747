use clyde::ast::{Context, ExprKind, Multiplicity, StatementKind};
use clyde::lexer::lex;
use clyde::parser::{parse_stmt, parse_usize_str, LocationParser};

fn parse(s: &str) -> clyde::ast::Statement {
    parse_stmt(lex(s, 0).unwrap(), Context::default()).unwrap()
}

#[test]
fn parser_smoke() {
    parse("show $;");
    parse("select* (id $)");
}

#[test]
fn locations() {
    assert!(LocationParser::new("", Context::default()).location().is_err());

    let loc = LocationParser::new(":foo.rs", Context::default()).location().unwrap();
    assert!(loc.file.is_some() && loc.line.is_none() && loc.column.is_none());

    let loc = LocationParser::new(":0", Context::default()).location().unwrap();
    assert!(loc.file.is_none() && loc.line.is_some() && loc.column.is_none());

    let loc = LocationParser::new(":42:3", Context::default()).location().unwrap();
    assert!(loc.file.is_none() && loc.line.is_some() && loc.column.is_some());

    let loc = LocationParser::new(":src/bar.rs:1:2:", Context::default()).location().unwrap();
    assert!(loc.file.is_some() && loc.line.is_some() && loc.column.is_some());
}

// The location literal forms: file-only, line-only (kept 1-indexed until
// resolution), line and column, fully specified with a tolerated trailing
// colon, fully unspecified, and the hard error on a fourth segment.
#[test]
fn location_literal_forms() {
    let loc = LocationParser::new(":foo.rs", Context::default()).location().unwrap();
    assert_eq!(loc.file.as_deref(), Some("foo.rs"));

    let loc = LocationParser::new(":42", Context::default()).location().unwrap();
    assert_eq!(loc.line, Some(42));
    assert_eq!(loc.file, None);
    assert_eq!(loc.column, None);

    let loc = LocationParser::new(":42:3", Context::default()).location().unwrap();
    assert_eq!((loc.line, loc.column), (Some(42), Some(3)));

    let loc = LocationParser::new(":src/bar.rs:1:2:", Context::default()).location().unwrap();
    assert_eq!(loc.file.as_deref(), Some("src/bar.rs"));
    assert_eq!((loc.line, loc.column), (Some(1), Some(2)));

    let loc = LocationParser::new(":", Context::default()).location().unwrap();
    assert!(loc.file.is_none() && loc.line.is_none() && loc.column.is_none());

    assert!(LocationParser::new(":a:1:2:3", Context::default()).location().is_err());

    match LocationParser::new(":foo.rs:x", Context::default()).location() {
        Err(clyde::Error::Parsing(msg)) => {
            assert_eq!(msg, "Invalid location, expected number, found `x`");
        }
        other => panic!("expected a parse error, found {:?}", other),
    }
}

// Whitespace around a location literal and its segments is trimmed.
#[test]
fn location_with_padding() {
    let st = parse("show ( : foo.rs : 3 )");
    match st.kind {
        StatementKind::Expr(ExprKind::Apply(a)) => match &a.lhs.kind {
            ExprKind::Location(loc) => {
                assert_eq!(loc.file.as_deref(), Some("foo.rs"));
                assert_eq!(loc.line, Some(3));
            }
            other => panic!("expected a location, found {:?}", other),
        },
        _ => panic!("expected a shorthand application"),
    }

    let st = parse("show (   )");
    match st.kind {
        StatementKind::Expr(ExprKind::Apply(a)) => {
            assert!(matches!(a.lhs.kind, ExprKind::Void));
        }
        _ => panic!("expected a shorthand application"),
    }
}

#[test]
fn number_parsing() {
    assert_eq!(parse_usize_str("0"), Some(0));
    assert_eq!(parse_usize_str("42"), Some(42));
    assert_eq!(parse_usize_str(""), None);
    assert_eq!(parse_usize_str("4x2"), None);
    assert_eq!(parse_usize_str("99999999999999999999999999"), None);
}

// The end-to-end statement of the session grammar parses into an
// application chain: `idents` applied to the selection, then `show`.
#[test]
fn chain_parses_left_associative() {
    let st = parse("select* (:foo.rs) -> idents -> show");
    let show = match st.kind {
        StatementKind::Expr(ExprKind::Apply(a)) => {
            assert_eq!(a.ident.name, "show");
            assert!(a.args.is_empty());
            a
        }
        _ => panic!("expected an application chain"),
    };
    let idents = match show.lhs.kind {
        ExprKind::Apply(a) => {
            assert_eq!(a.ident.name, "idents");
            a
        }
        _ => panic!("expected the idents link"),
    };
    match &idents.lhs.kind {
        ExprKind::Select(sel) => {
            assert_eq!(sel.multiplicity, Multiplicity::Many);
            assert_eq!(sel.filters.len(), 1);
            match &sel.filters[0].kind {
                ExprKind::Location(loc) => {
                    assert_eq!(loc.file.as_deref(), Some("foo.rs"));
                }
                _ => panic!("expected a location filter"),
            }
        }
        _ => panic!("expected a selection"),
    }
}

#[test]
fn shorthand_and_void() {
    let st = parse("show $");
    match st.kind {
        StatementKind::Expr(ExprKind::Apply(a)) => {
            assert_eq!(a.ident.name, "show");
            assert!(matches!(a.lhs.kind, ExprKind::MetaVar(_)));
        }
        _ => panic!("expected a shorthand application"),
    }

    let st = parse("show ()");
    match st.kind {
        StatementKind::Expr(ExprKind::Apply(a)) => {
            assert!(matches!(a.lhs.kind, ExprKind::Void));
        }
        _ => panic!("expected a shorthand application"),
    }
}

#[test]
fn meta_statements() {
    let st = parse("^help");
    assert!(matches!(st.kind, StatementKind::Meta(clyde::ast::MetaKind::Help)));
    let st = parse("^exit;");
    assert!(matches!(st.kind, StatementKind::Meta(clyde::ast::MetaKind::Exit)));
    assert!(parse_stmt(lex("^quit", 0).unwrap(), Context::default()).is_err());
}

#[test]
fn trailing_tokens_are_errors() {
    assert!(parse_stmt(lex("show $ $", 0).unwrap(), Context::default()).is_err());
    assert!(parse_stmt(lex("$ foo", 0).unwrap(), Context::default()).is_err());
}

#[test]
fn empty_input_is_reported() {
    assert!(matches!(clyde::parse_stmt(""), Err(clyde::Error::EmptyInput)));
    assert!(matches!(clyde::parse_stmt("   # only a comment"), Err(clyde::Error::EmptyInput)));
    assert!(clyde::parse_stmt("show $;").is_ok());
    assert!(matches!(clyde::parse_stmt("%"), Err(clyde::Error::Lexing(_, 0))));
}
