use clyde::lexer::lex;
use clyde::tokens::{Span, SymbolKind, Token, TokenKind, TokenTree};

#[test]
fn lexer_smoke() {
    assert_eq!(
        lex("", 0).unwrap(),
        Token {
            kind: TokenKind::Tree(TokenTree { tokens: Vec::new() }),
            span: Span::new(0, String::new()),
        }
    );

    assert_eq!(
        lex("   ", 0).unwrap(),
        Token {
            kind: TokenKind::Tree(TokenTree { tokens: Vec::new() }),
            span: Span::new(0, "   ".to_owned()),
        }
    );

    assert_eq!(
        lex(" $ $  ->     ", 0).unwrap(),
        Token {
            kind: TokenKind::Tree(TokenTree {
                tokens: vec![
                    Token {
                        kind: TokenKind::Symbol(SymbolKind::Dollar),
                        span: Span::new(1, "$".to_owned())
                    },
                    Token {
                        kind: TokenKind::Symbol(SymbolKind::Dollar),
                        span: Span::new(3, "$".to_owned())
                    },
                    Token {
                        kind: TokenKind::Symbol(SymbolKind::ArrowRight),
                        span: Span::new(6, "->".to_owned())
                    },
                ]
            }),
            span: Span::new(0, " $ $  ->     ".to_owned()),
        }
    );

    assert_eq!(
        lex("  foo  (fd && dfs: Foo( )  ) # a comment", 0).unwrap(),
        Token {
            kind: TokenKind::Tree(TokenTree {
                tokens: vec![
                    Token {
                        kind: TokenKind::Ident,
                        span: Span::new(2, "foo".to_owned())
                    },
                    Token {
                        kind: TokenKind::RawTree,
                        span: Span::new(7, "(fd && dfs: Foo( )  )".to_owned())
                    },
                ]
            }),
            span: Span::new(0, "  foo  (fd && dfs: Foo( )  ) ".to_owned()),
        }
    );
}

#[test]
fn errors() {
    assert!(lex("%", 0).is_err());
    assert!(lex("-4", 0).is_err());
    assert!(lex("-", 0).is_err());
    assert!(lex("(foo", 0).is_err());
}

// Lexing is a pure function of the input and the offset: the same text
// lexed at offset 5 yields the same tokens with every span start shifted
// by exactly 5.
#[test]
fn offset_shifts_spans() {
    let base = lex("show (a) ;", 0).unwrap();
    let shifted = lex("show (a) ;", 5).unwrap();
    let (tb, sb) = match (base.kind, shifted.kind) {
        (TokenKind::Tree(a), TokenKind::Tree(b)) => (a, b),
        _ => panic!("expected trees"),
    };
    assert_eq!(base.span.start + 5, shifted.span.start);
    assert_eq!(base.span.text, shifted.span.text);
    assert_eq!(tb.tokens.len(), sb.tokens.len());
    for (a, b) in tb.tokens.iter().zip(sb.tokens.iter()) {
        assert_eq!(a.kind, b.kind);
        assert_eq!(a.span.start + 5, b.span.start);
        assert_eq!(a.span.text, b.span.text);
    }
}

// Round-trip: the span texts, put back at their offsets, reproduce the
// input exactly, with only whitespace between them.
#[test]
fn spans_cover_input() {
    let input = "  select*  (x y)->idents ;";
    let t = lex(input, 0).unwrap();
    assert_eq!(t.span.text, input);
    let tt = match t.kind {
        TokenKind::Tree(tt) => tt,
        _ => panic!("expected tree"),
    };
    let mut rebuilt: Vec<char> = input.chars().map(|c| if c == ' ' { ' ' } else { '\0' }).collect();
    for tok in &tt.tokens {
        for (i, c) in tok.span.text.chars().enumerate() {
            rebuilt[tok.span.start + i] = c;
        }
    }
    let rebuilt: String = rebuilt.into_iter().collect();
    assert_eq!(rebuilt, input);
}

// The lexer stops at a statement separator and keeps it as the last token.
#[test]
fn semicolon_ends_tree() {
    let t = lex("a ; b", 0).unwrap();
    let tt = match t.kind {
        TokenKind::Tree(tt) => tt,
        _ => panic!("expected tree"),
    };
    assert_eq!(tt.tokens.len(), 2);
    assert_eq!(tt.tokens[1].kind, TokenKind::Symbol(SymbolKind::SemiColon));
    assert_eq!(t.span.text, "a ;");
}

// An unclosed delimiter reports the offset of the last character and names
// the delimiters still open.
#[test]
fn unclosed_delimiters() {
    match lex("((foo)", 0) {
        Err(clyde::Error::Lexing(msg, at)) => {
            assert_eq!(at, 5);
            assert!(msg.contains("expected `)`"));
        }
        other => panic!("expected a lexing error, found {:?}", other),
    }
    match lex("x %", 3) {
        Err(clyde::Error::Lexing(msg, at)) => {
            assert_eq!(at, 5);
            assert_eq!(msg, "Unexpected token");
        }
        other => panic!("expected a lexing error, found {:?}", other),
    }
}
