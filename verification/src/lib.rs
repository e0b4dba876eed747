//! Front end and evaluation engine for a small interactive query language
//! over source-code structure: statements are lexed into a token tree,
//! parsed into an AST, type-checked, and evaluated against a pluggable
//! code-intelligence backend.

pub mod ast;
pub mod back;
pub mod chars;
pub mod data;
pub mod fs;
pub mod function;
pub mod interp;
pub mod query;
pub mod lexer;
pub mod parser;
pub mod render;
pub mod show;
pub mod tokens;

use vstd::prelude::*;

verus! {

/// A failure while turning text into a statement.
#[derive(Debug)]
pub enum Error {
    /// The message and the character offset into the logical input, usable
    /// to render a caret beneath the offending character.
    Lexing(String, usize),
    Parsing(String),
    EmptyInput,
    Other(String),
}

/// Lexes and parses one statement. Empty input (nothing but whitespace or
/// a comment) is reported as `EmptyInput`, which callers must not treat as
/// a hard failure. The outcome is pinned in both directions: the lexer's
/// outcome by `spec_lex_tree`, and the parse of a non-empty tree by
/// `spec_statement`, so a statement that parses is owed its `Ok`.
pub fn parse_stmt(s: &str) -> (r: Result<ast::Statement, Error>)
    ensures
        match lexer::spec_lex_tree(s@, 0, 0) {
            Err(le) => r matches Err(e) && (e matches Error::Lexing(m, a) && m@ == le.msg && a
                as int == le.at),
            Ok(p) => {
                if p.0.len() == 0 {
                    r matches Err(e) && e matches Error::EmptyInput
                } else {
                    match parser::spec_statement(p.0) {
                        Ok(g) => r matches Ok(st) && st.model() == g && parser::stmt_parses(
                            p.0,
                            st.model(),
                        ),
                        Err(u) => r matches Err(e) && (e matches Error::Parsing(_) || e matches
                            Error::Lexing(_, _)),
                    }
                }
            },
        },
{
    let _n = s.unicode_len();
    let toks = match lexer::lex(s, 0) {
        Ok(t) => t,
        Err(e) => {
            return Err(e);
        },
    };
    if toks.is_empty() {
        return Err(Error::EmptyInput);
    }
    proof {
        lexer::lemma_lex_shape_ok(s@, 0, 0);
    }
    let mut ctx = ast::Context::default();
    ctx.input = Some(s.to_owned());
    parser::parse_stmt(toks, ctx)
}

} // verus!
