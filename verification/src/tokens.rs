//! Tokens produced by the lexer: spans, symbols, and token trees.
//!
//! A lexing pass produces one `Tree` token holding a flat sequence of
//! sibling tokens; a parenthesized region is kept as an un-lexed `RawTree`
//! token until the parser actually descends into it.

use crate::chars::spec_trim;
use vstd::prelude::*;

verus! {

/// A region of the original input: the character offset where it starts and
/// the exact text it covers.
#[derive(Clone, Eq, PartialEq, Debug)]
pub struct Span {
    pub start: usize,
    pub text: String,
}

impl Span {
    pub fn new(start: usize, text: String) -> (r: Span)
        ensures
            r.start == start,
            r.text == text,
    {
        Span { start, text }
    }
}

/// The single- and two-character symbols of the language.
#[derive(Clone, Copy, Eq, PartialEq, Structural, Debug)]
pub enum SymbolKind {
    Caret,
    Asterisk,
    Dollar,
    SemiColon,
    Hash,
    Eq,
    PlusEq,
    ArrowLeft,
    ArrowRight,
}

/// The characters a symbol is written as.
pub open spec fn spec_symbol_text(s: SymbolKind) -> Seq<char> {
    match s {
        SymbolKind::Caret => "^"@,
        SymbolKind::Asterisk => "*"@,
        SymbolKind::Dollar => "$"@,
        SymbolKind::SemiColon => ";"@,
        SymbolKind::Hash => "#"@,
        SymbolKind::Eq => "="@,
        SymbolKind::PlusEq => "+="@,
        SymbolKind::ArrowLeft => "<-"@,
        SymbolKind::ArrowRight => "->"@,
    }
}

impl SymbolKind {
    pub fn as_str(&self) -> (r: &'static str)
        ensures
            r@ == spec_symbol_text(*self),
    {
        match self {
            SymbolKind::Caret => "^",
            SymbolKind::Asterisk => "*",
            SymbolKind::Dollar => "$",
            SymbolKind::SemiColon => ";",
            SymbolKind::Hash => "#",
            SymbolKind::Eq => "=",
            SymbolKind::PlusEq => "+=",
            SymbolKind::ArrowLeft => "<-",
            SymbolKind::ArrowRight => "->",
        }
    }
}

/// What a token is. The span of a `RawTree` or `Tree` includes its
/// delimiters, with no padding outside them.
#[derive(Eq, PartialEq, Debug)]
pub enum TokenKind {
    Symbol(SymbolKind),
    Ident,
    Number(i64),
    RawTree,
    Tree(TokenTree),
}

/// A flat sequence of sibling tokens from one lexing pass, terminated by a
/// statement separator or the end of the input.
#[derive(Eq, PartialEq, Debug)]
pub struct TokenTree {
    pub tokens: Vec<Token>,
}

#[derive(Eq, PartialEq, Debug)]
pub struct Token {
    pub kind: TokenKind,
    pub span: Span,
}

/// Mathematical model of a token: its kind, its absolute start offset, and
/// the characters its span covers. The tokens inside a `Tree` are modelled
/// one level at a time, so the kind alone is kept for a nested tree.
pub struct GTok {
    pub kind: GTokKind,
    pub start: int,
    pub text: Seq<char>,
}

pub enum GTokKind {
    Symbol(SymbolKind),
    Ident,
    Number(i64),
    RawTree,
    Tree,
}

impl Token {
    /// The model of this token.
    pub open spec fn model(&self) -> GTok {
        GTok {
            kind: match self.kind {
                TokenKind::Symbol(s) => GTokKind::Symbol(s),
                TokenKind::Ident => GTokKind::Ident,
                TokenKind::Number(n) => GTokKind::Number(n),
                TokenKind::RawTree => GTokKind::RawTree,
                TokenKind::Tree(_) => GTokKind::Tree,
            },
            start: self.span.start as int,
            text: self.span.text@,
        }
    }

    /// The span's end offset stays within the machine's address range; the
    /// lexer only produces such tokens.
    pub open spec fn wf(&self) -> bool {
        self.span.start + self.span.text@.len() <= usize::MAX
    }

    /// A raw tree's span always holds its two delimiters.
    pub open spec fn is_raw_tree(&self) -> bool {
        &&& self.kind matches TokenKind::RawTree
        &&& self.span.text@.len() >= 2
    }

    /// The interior characters of a raw tree: its text without delimiters.
    pub open spec fn spec_interior(&self) -> Seq<char> {
        self.span.text@.subrange(1, self.span.text@.len() - 1)
    }

    pub fn new(kind: TokenKind, span: Span) -> (r: Token)
        ensures
            r.kind == kind,
            r.span == span,
    {
        Token { kind, span }
    }

    /// Whether this token holds nothing to parse: a tree without tokens, or
    /// a raw tree whose interior is only whitespace.
    pub open spec fn spec_is_empty(&self) -> bool {
        match self.kind {
            TokenKind::Tree(tt) => tt.tokens@.len() == 0,
            TokenKind::RawTree => self.span.text@.len() < 2 || spec_trim(self.spec_interior()).len()
                == 0,
            _ => false,
        }
    }

    pub fn is_empty(&self) -> (r: bool)
        ensures
            r == self.spec_is_empty(),
    {
        match &self.kind {
            TokenKind::Tree(tt) => tt.tokens.len() == 0,
            TokenKind::RawTree => {
                let n = self.span.text.as_str().unicode_len();
                if n < 2 {
                    true
                } else {
                    let inner = self.span.text.as_str().substring_char(1, n - 1);
                    let trimmed = crate::chars::trim_str(inner);
                    trimmed.unicode_len() == 0
                }
            },
            _ => false,
        }
    }

    /// Takes this token apart as a lexed tree.
    pub fn expect_tree(self) -> (r: (TokenTree, Span))
        requires
            self.kind matches TokenKind::Tree(_),
        ensures
            self.kind == TokenKind::Tree(r.0),
            r.1 == self.span,
    {
        match self.kind {
            TokenKind::Tree(tt) => (tt, self.span),
            _ => vstd::pervasive::unreached(),
        }
    }

    /// How this token is written in a message: a symbol or identifier as
    /// its text, a number in decimal, a tree as its opening delimiter.
    pub open spec fn spec_display(&self) -> Seq<char> {
        match self.kind {
            TokenKind::Symbol(s) => spec_symbol_text(s),
            TokenKind::Ident => self.span.text@,
            TokenKind::Number(n) => crate::render::dec_int(n as int),
            TokenKind::RawTree => "("@,
            TokenKind::Tree(_) => "("@,
        }
    }

    pub fn to_display_string(&self) -> (r: String)
        ensures
            r@ == self.spec_display(),
    {
        match &self.kind {
            TokenKind::Symbol(s) => {
                let t: &'static str = s.as_str();
                t.to_owned()
            },
            TokenKind::Ident => self.span.text.clone(),
            TokenKind::Number(n) => crate::render::i64_string(*n),
            TokenKind::RawTree => {
                let t: &'static str = "(";
                t.to_owned()
            },
            TokenKind::Tree(_) => {
                let t: &'static str = "(";
                t.to_owned()
            },
        }
    }

    /// Lexes the interior of a raw tree on demand. The interior is lexed at
    /// offset `start + 1`, so the produced spans are absolute within the
    /// whole logical input.
    pub fn expect_raw_tree(&self) -> (r: Result<(TokenTree, Span), crate::Error>)
        requires
            self.is_raw_tree(),
            self.wf(),
        ensures
            match crate::lexer::spec_lex_tree(
                self.spec_interior(),
                self.span.start + 1,
                0,
            ) {
                Ok(p) => r matches Ok(ts) && crate::lexer::models(ts.0.tokens@) == p.0
                    && crate::lexer::tokens_wf(ts.0.tokens@),
                Err(e) => r matches Err(pe) && (pe matches crate::Error::Lexing(m, a) && m@ == e.msg
                    && a as int == e.at),
            },
    {
        let n = self.span.text.as_str().unicode_len();
        let interior = self.span.text.as_str().substring_char(1, n - 1);
        match crate::lexer::lex(interior, self.span.start + 1) {
            Ok(t) => Ok(t.expect_tree()),
            Err(e) => Err(e),
        }
    }

    /// The trimmed interior of a raw tree, for a look at its first
    /// character before deciding how to parse it.
    pub fn inner(&self) -> (r: &str)
        requires
            self.is_raw_tree(),
        ensures
            r@ == spec_trim(self.spec_interior()),
    {
        let n = self.span.text.as_str().unicode_len();
        let interior = self.span.text.as_str().substring_char(1, n - 1);
        crate::chars::trim_str(interior)
    }
}

} // verus!
