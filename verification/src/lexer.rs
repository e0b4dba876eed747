//! The lexer: turns raw text into a flat token tree.
//!
//! `lex` scans characters and recognizes single-character symbols, the
//! two-character symbol `->`, identifiers, and whitespace (skipped). A `(`
//! is matched to its closing `)` with a delimiter-depth counter and kept as
//! one un-lexed `RawTree` token. A `#` at depth 0 ends the lex (comment to
//! end of the logical line); a `;` at depth 0 is kept as the last token and
//! also ends the current tree.
//!
//! The whole pass is specified by `spec_lex_tree`, a pure function of the
//! input characters and the starting offset.

use crate::chars::{alphabetic, alphanumeric, char_is_alphabetic, char_is_alphanumeric,
    char_is_whitespace, whitespace};
use crate::tokens::{GTok, GTokKind, Span, SymbolKind, Token, TokenKind, TokenTree};
use crate::Error;
use vstd::prelude::*;
use vstd::string::StrSliceExecFns;
use vstd::string::StringExecFns;

verus! {

/// A lexing failure: the human message and the absolute character offset it
/// points at.
pub struct GLexErr {
    pub msg: Seq<char>,
    pub at: int,
}

/// The outcome of scanning one token at a position: whitespace to skip, a
/// token of a given kind and character length, or a failure.
pub enum LexStep {
    White,
    Tok(GTokKind, int),
    Fail(Seq<char>, int),
}

/// The symbol a single character stands for, if any.
pub open spec fn symbol_of(c: char) -> Option<SymbolKind> {
    if c == '^' {
        Some(SymbolKind::Caret)
    } else if c == '$' {
        Some(SymbolKind::Dollar)
    } else if c == '*' {
        Some(SymbolKind::Asterisk)
    } else if c == '=' {
        Some(SymbolKind::Eq)
    } else if c == '#' {
        Some(SymbolKind::Hash)
    } else if c == ';' {
        Some(SymbolKind::SemiColon)
    } else {
        None
    }
}

/// Result of scanning for the `)` matching an already-seen `(`: the index
/// just past the match, or the delimiter depth still open at end of input.
pub enum RawScan {
    Closed(int),
    Unclosed(int),
}

/// Scans from index `i` at nesting depth `depth` for the closing delimiter.
pub open spec fn raw_scan(s: Seq<char>, i: int, depth: int) -> RawScan
    decreases s.len() - i,
{
    if i < 0 || i >= s.len() {
        RawScan::Unclosed(depth)
    } else if s[i] == '(' {
        raw_scan(s, i + 1, depth + 1)
    } else if s[i] == ')' {
        if depth <= 1 {
            RawScan::Closed(i + 1)
        } else {
            raw_scan(s, i + 1, depth - 1)
        }
    } else {
        raw_scan(s, i + 1, depth)
    }
}

/// First index at or after `i` that does not continue an identifier.
pub open spec fn ident_end(s: Seq<char>, i: int) -> int
    decreases s.len() - i,
{
    if i < 0 || i >= s.len() {
        s.len() as int
    } else if alphanumeric(s[i]) {
        ident_end(s, i + 1)
    } else {
        i
    }
}

pub open spec fn msg_unexpected() -> Seq<char> {
    "Unexpected token"@
}

pub open spec fn msg_eof_arrow() -> Seq<char> {
    "Unexpected end of input, expected `>`"@
}

/// The message for unclosed delimiters, naming the `depth` still-open ones.
pub open spec fn msg_unclosed(depth: int) -> Seq<char> {
    "Unexpected end of input (unclosed delimiters), expected `"@ + Seq::new(
        depth as nat,
        |i: int| ')',
    ) + "`"@
}

/// What one scanning step at position `pos` yields, with `off` the offset
/// of the input's start within the whole logical input.
pub open spec fn spec_lex_tok(s: Seq<char>, off: int, pos: int) -> LexStep
    recommends
        0 <= pos < s.len(),
{
    let c = s[pos];
    if symbol_of(c) is Some {
        LexStep::Tok(GTokKind::Symbol(symbol_of(c)->Some_0), 1)
    } else if c == '-' {
        if pos + 1 >= s.len() {
            LexStep::Fail(msg_eof_arrow(), off + pos + 1)
        } else if s[pos + 1] == '>' {
            LexStep::Tok(GTokKind::Symbol(SymbolKind::ArrowRight), 2)
        } else {
            LexStep::Fail(msg_unexpected(), off + pos + 1)
        }
    } else if c == '(' {
        match raw_scan(s, pos + 1, 1) {
            RawScan::Closed(end) => LexStep::Tok(GTokKind::RawTree, end - pos),
            RawScan::Unclosed(depth) => LexStep::Fail(msg_unclosed(depth), off + s.len() - 1),
        }
    } else if alphabetic(c) {
        LexStep::Tok(GTokKind::Ident, ident_end(s, pos + 1) - pos)
    } else if whitespace(c) {
        LexStep::White
    } else {
        LexStep::Fail(msg_unexpected(), off + pos)
    }
}

proof fn lemma_ident_end_bounds(s: Seq<char>, i: int)
    requires
        0 <= i <= s.len(),
    ensures
        i <= ident_end(s, i) <= s.len(),
    decreases s.len() - i,
{
    if i < s.len() && alphanumeric(s[i]) {
        lemma_ident_end_bounds(s, i + 1);
    }
}

proof fn lemma_raw_scan_bounds(s: Seq<char>, i: int, depth: int)
    requires
        0 <= i <= s.len(),
    ensures
        raw_scan(s, i, depth) matches RawScan::Closed(end) ==> i < end <= s.len(),
    decreases s.len() - i,
{
    if i < s.len() {
        if s[i] == '(' {
            lemma_raw_scan_bounds(s, i + 1, depth + 1);
        } else if s[i] == ')' {
            if depth > 1 {
                lemma_raw_scan_bounds(s, i + 1, depth - 1);
            }
        } else {
            lemma_raw_scan_bounds(s, i + 1, depth);
        }
    }
}

/// A successful step always stands for at least one character and stays
/// inside the input.
proof fn lemma_lex_tok_len(s: Seq<char>, off: int, pos: int)
    requires
        0 <= pos < s.len(),
    ensures
        spec_lex_tok(s, off, pos) matches LexStep::Tok(_, len) ==> 1 <= len && pos + len <= s.len(),
{
    let c = s[pos];
    if symbol_of(c) is None && c != '-' && c == '(' {
        lemma_raw_scan_bounds(s, pos + 1, 1);
    }
    if symbol_of(c) is None && c != '-' && c != '(' && alphabetic(c) {
        lemma_ident_end_bounds(s, pos + 1);
    }
}

/// The whole lexing pass from position `pos`: the models of the tokens
/// produced and the position where the pass stopped, or the failure.
pub open spec fn spec_lex_tree(s: Seq<char>, off: int, pos: int) -> Result<
    (Seq<GTok>, int),
    GLexErr,
>
    decreases s.len() - pos,
    via spec_lex_tree_decreases
{
    if pos < 0 || pos >= s.len() {
        Ok((Seq::empty(), pos))
    } else {
        match spec_lex_tok(s, off, pos) {
            LexStep::Fail(msg, at) => Err(GLexErr { msg, at }),
            LexStep::White => spec_lex_tree(s, off, pos + 1),
            LexStep::Tok(kind, len) => {
                if kind == GTokKind::Symbol(SymbolKind::Hash) {
                    Ok((Seq::empty(), pos))
                } else {
                    let t = GTok { kind, start: off + pos, text: s.subrange(pos, pos + len) };
                    if kind == GTokKind::Symbol(SymbolKind::SemiColon) {
                        Ok((seq![t], pos + len))
                    } else {
                        match spec_lex_tree(s, off, pos + len) {
                            Ok(p) => Ok((seq![t] + p.0, p.1)),
                            Err(e) => Err(e),
                        }
                    }
                }
            },
        }
    }
}

#[via_fn]
proof fn spec_lex_tree_decreases(s: Seq<char>, off: int, pos: int) {
    if 0 <= pos < s.len() {
        lemma_lex_tok_len(s, off, pos);
    }
}

/// The models of a vector of tokens.
pub open spec fn models(ts: Seq<Token>) -> Seq<GTok> {
    ts.map_values(|t: Token| t.model())
}

/// Every token's span end stays within the machine's address range.
pub open spec fn tokens_wf(ts: Seq<Token>) -> bool {
    forall|i: int| 0 <= i < ts.len() ==> (#[trigger] ts[i]).wf()
}

/// Builds the message for `depth` unclosed delimiters.
fn unclosed_msg(depth: usize) -> (r: String)
    ensures
        r@ == msg_unclosed(depth as int),
{
    let mut msg = String::from_str("Unexpected end of input (unclosed delimiters), expected `");
    let mut k: usize = 0;
    while k < depth
        invariant
            k <= depth,
            msg@ == "Unexpected end of input (unclosed delimiters), expected `"@ + Seq::new(
                k as nat,
                |i: int| ')',
            ),
        decreases depth - k,
    {
        msg.append(")");
        proof {
            reveal_strlit(")");
            assert(msg@ =~= "Unexpected end of input (unclosed delimiters), expected `"@
                + Seq::new((k + 1) as nat, |i: int| ')'));
        }
        k = k + 1;
    }
    msg.append("`");
    proof {
        assert(Seq::new(depth as nat, |i: int| ')') =~= Seq::new(k as nat, |i: int| ')'));
        assert(msg@ =~= msg_unclosed(depth as int));
    }
    msg
}

/// Scans one token starting at character `pos`. Returns the token and its
/// character length, or nothing for a whitespace character to skip.
fn lex_tok(input: &str, n: usize, pos: usize, offset: usize) -> (r: Result<
    Option<(Token, usize)>,
    Error,
>)
    requires
        n == input@.len(),
        pos < n,
        offset + n <= usize::MAX,
    ensures
        match spec_lex_tok(input@, offset as int, pos as int) {
            LexStep::White => r matches Ok(None),
            LexStep::Tok(kind, len) => r matches Ok(Some(p)) && {
                &&& p.1 as int == len
                &&& pos + p.1 <= n
                &&& 1 <= p.1
                &&& p.0.model() == (GTok {
                    kind,
                    start: offset + pos as int,
                    text: input@.subrange(pos as int, pos as int + len),
                })
                &&& p.0.wf()
            },
            LexStep::Fail(msg, at) => r matches Err(e) && (e matches Error::Lexing(m, a) && m@
                == msg && a as int == at),
        },
{
    proof {
        lemma_lex_tok_len(input@, offset as int, pos as int);
    }
    let c = input.get_char(pos);
    let sym: Option<SymbolKind> = if c == '^' {
        Some(SymbolKind::Caret)
    } else if c == '$' {
        Some(SymbolKind::Dollar)
    } else if c == '*' {
        Some(SymbolKind::Asterisk)
    } else if c == '=' {
        Some(SymbolKind::Eq)
    } else if c == '#' {
        Some(SymbolKind::Hash)
    } else if c == ';' {
        Some(SymbolKind::SemiColon)
    } else {
        None
    };
    match sym {
        Some(k) => {
            let text = input.substring_char(pos, pos + 1).to_owned();
            let t = Token::new(TokenKind::Symbol(k), Span::new(offset + pos, text));
            Ok(Some((t, 1)))
        },
        None => {
            if c == '-' {
                if pos + 1 >= n {
                    Err(Error::Lexing(
                        String::from_str("Unexpected end of input, expected `>`"),
                        offset + pos + 1,
                    ))
                } else if input.get_char(pos + 1) == '>' {
                    let text = input.substring_char(pos, pos + 2).to_owned();
                    let t = Token::new(
                        TokenKind::Symbol(SymbolKind::ArrowRight),
                        Span::new(offset + pos, text),
                    );
                    Ok(Some((t, 2)))
                } else {
                    Err(Error::Lexing(String::from_str("Unexpected token"), offset + pos + 1))
                }
            } else if c == '(' {
                lex_raw_tree(input, n, pos, offset)
            } else if char_is_alphabetic(c) {
                let mut i: usize = pos + 1;
                while i < n && char_is_alphanumeric(input.get_char(i))
                    invariant
                        n == input@.len(),
                        pos + 1 <= i <= n,
                        ident_end(input@, pos + 1) == ident_end(input@, i as int),
                    decreases n - i,
                {
                    i = i + 1;
                }
                assert(ident_end(input@, i as int) == i as int);
                let text = input.substring_char(pos, i).to_owned();
                let t = Token::new(TokenKind::Ident, Span::new(offset + pos, text));
                Ok(Some((t, i - pos)))
            } else if char_is_whitespace(c) {
                Ok(None)
            } else {
                Err(Error::Lexing(String::from_str("Unexpected token"), offset + pos))
            }
        },
    }
}

/// Scans the raw-tree token whose `(` stands at `pos`.
fn lex_raw_tree(input: &str, n: usize, pos: usize, offset: usize) -> (r: Result<
    Option<(Token, usize)>,
    Error,
>)
    requires
        n == input@.len(),
        pos < n,
        offset + n <= usize::MAX,
        input@[pos as int] == '(',
        symbol_of(input@[pos as int]) is None,
    ensures
        match spec_lex_tok(input@, offset as int, pos as int) {
            LexStep::White => r matches Ok(None),
            LexStep::Tok(kind, len) => r matches Ok(Some(p)) && {
                &&& p.1 as int == len
                &&& pos + p.1 <= n
                &&& 1 <= p.1
                &&& p.0.model() == (GTok {
                    kind,
                    start: offset + pos as int,
                    text: input@.subrange(pos as int, pos as int + len),
                })
                &&& p.0.wf()
            },
            LexStep::Fail(msg, at) => r matches Err(e) && (e matches Error::Lexing(m, a) && m@
                == msg && a as int == at),
        },
{
    proof {
        lemma_raw_scan_bounds(input@, pos as int + 1, 1);
    }
    let mut i: usize = pos + 1;
    let mut depth: usize = 1;
    loop
        invariant
            n == input@.len(),
            pos < n,
            offset + n <= usize::MAX,
            pos + 1 <= i <= n,
            1 <= depth <= i,
            input@[pos as int] == '(',
            symbol_of(input@[pos as int]) is None,
            raw_scan(input@, pos as int + 1, 1) == raw_scan(input@, i as int, depth as int),
        decreases n - i,
    {
        if i >= n {
            let msg = unclosed_msg(depth);
            return Err(Error::Lexing(msg, offset + n - 1));
        }
        let c = input.get_char(i);
        if c == '(' {
            depth = depth + 1;
            i = i + 1;
        } else if c == ')' {
            if depth == 1 {
                proof {
                    lemma_raw_scan_bounds(input@, pos as int + 1, 1);
                }
                let text = input.substring_char(pos, i + 1).to_owned();
                let t = Token::new(TokenKind::RawTree, Span::new(offset + pos, text));
                return Ok(Some((t, i + 1 - pos)));
            } else {
                depth = depth - 1;
                i = i + 1;
            }
        } else {
            i = i + 1;
        }
    }
}

/// Joins an already-produced prefix of token models with the outcome of
/// lexing the rest of the input.
pub open spec fn lex_join(prefix: Seq<GTok>, rest: Result<(Seq<GTok>, int), GLexErr>) -> Result<
    (Seq<GTok>, int),
    GLexErr,
> {
    match rest {
        Ok(p) => Ok((prefix + p.0, p.1)),
        Err(e) => Err(e),
    }
}

/// Lexes one token tree from `input`. `offset` is the character offset of
/// `input` within the whole logical input, so that nested re-lexing of a
/// raw tree reports absolute positions.
///
/// The result is pinned by `spec_lex_tree(input@, offset, 0)`: on success
/// the returned token is a `Tree` whose tokens' models are exactly the
/// specified ones and whose own span covers the consumed prefix of the
/// input; on failure the error's message and offset are the specified ones.
pub fn lex(input: &str, offset: usize) -> (r: Result<Token, Error>)
    requires
        offset + input@.len() <= usize::MAX,
    ensures
        match spec_lex_tree(input@, offset as int, 0) {
            Ok(p) => r matches Ok(t) && {
                &&& t.span.start == offset
                &&& t.span.text@ == input@.subrange(0, p.1)
                &&& t.kind matches TokenKind::Tree(tt) && models(tt.tokens@) == p.0 && tokens_wf(
                    tt.tokens@,
                )
                &&& t.wf()
            },
            Err(e) => r matches Err(pe) && (pe matches Error::Lexing(m, a) && m@ == e.msg && a
                as int == e.at),
        },
{
    let ghost s = input@;
    let ghost off = offset as int;
    let n = input.unicode_len();
    let mut tokens: Vec<Token> = Vec::new();
    let mut pos: usize = 0;
    while pos < n
        invariant
            n == s.len(),
            s == input@,
            off == offset as int,
            offset + n <= usize::MAX,
            pos <= n,
            tokens_wf(tokens@),
            spec_lex_tree(s, off, 0) == lex_join(models(tokens@), spec_lex_tree(s, off, pos as int)),
        decreases n - pos,
    {
        let step = lex_tok(input, n, pos, offset);
        match step {
            Err(e) => {
                proof {
                    assert(spec_lex_tree(s, off, pos as int) is Err);
                }
                return Err(e);
            },
            Ok(None) => {
                proof {
                    assert(spec_lex_tree(s, off, pos as int) == spec_lex_tree(
                        s,
                        off,
                        pos as int + 1,
                    ));
                }
                pos = pos + 1;
            },
            Ok(Some((t, len))) => {
                let ghost gt = t.model();
                match &t.kind {
                    TokenKind::Symbol(SymbolKind::Hash) => {
                        proof {
                            assert(spec_lex_tree(s, off, pos as int) == Ok::<_, GLexErr>((
                                Seq::<GTok>::empty(),
                                pos as int,
                            )));
                            assert(models(tokens@) + Seq::<GTok>::empty() =~= models(tokens@));
                        }
                        return Ok(finish_tree(input, offset, pos, tokens));
                    },
                    TokenKind::Symbol(SymbolKind::SemiColon) => {
                        proof {
                            assert(spec_lex_tree(s, off, pos as int) == Ok::<_, GLexErr>((
                                seq![gt],
                                pos as int + len,
                            )));
                        }
                        let ghost old_tokens = tokens@;
                        tokens.push(t);
                        let end = pos + len;
                        proof {
                            assert(models(tokens@) =~= models(old_tokens) + seq![gt]);
                        }
                        return Ok(finish_tree(input, offset, end, tokens));
                    },
                    _ => {
                        proof {
                            assert(gt.kind != GTokKind::Symbol(SymbolKind::Hash) && gt.kind
                                != GTokKind::Symbol(SymbolKind::SemiColon));
                            assert(spec_lex_tree(s, off, pos as int) == lex_join(
                                seq![gt],
                                spec_lex_tree(s, off, pos as int + len),
                            ));
                        }
                        let ghost old_tokens = tokens@;
                        tokens.push(t);
                        pos = pos + len;
                        proof {
                            assert(models(tokens@) =~= models(old_tokens) + seq![gt]);
                            lemma_lex_join_assoc(
                                models(old_tokens),
                                seq![gt],
                                spec_lex_tree(s, off, pos as int),
                            );
                        }
                    },
                }
            },
        }
    }
    proof {
        assert(spec_lex_tree(s, off, pos as int) == Ok::<_, GLexErr>((
            Seq::<GTok>::empty(),
            pos as int,
        )));
        assert(models(tokens@) + Seq::<GTok>::empty() =~= models(tokens@));
    }
    Ok(finish_tree(input, offset, pos, tokens))
}

proof fn lemma_lex_join_assoc(
    a: Seq<GTok>,
    b: Seq<GTok>,
    rest: Result<(Seq<GTok>, int), GLexErr>,
)
    ensures
        lex_join(a, lex_join(b, rest)) == lex_join(a + b, rest),
{
    match rest {
        Ok(p) => {
            assert(a + (b + p.0) =~= (a + b) + p.0);
        },
        Err(_) => {},
    }
}

/// Shape facts that hold of every token the lexer produces: it covers at
/// least one character, a raw tree at least its two delimiters, and only
/// leaf kinds come out of one pass.
pub open spec fn gtok_shape_ok(t: GTok) -> bool {
    &&& t.text.len() >= 1
    &&& (t.kind == GTokKind::RawTree ==> t.text.len() >= 2)
    &&& (t.kind matches GTokKind::Symbol(_) || t.kind == GTokKind::Ident || t.kind
        == GTokKind::RawTree)
}

pub open spec fn gtoks_shape_ok(ts: Seq<GTok>) -> bool {
    forall|i: int| 0 <= i < ts.len() ==> gtok_shape_ok(#[trigger] ts[i])
}

/// Every token of a successful lexing pass has the lexer's shape.
pub proof fn lemma_lex_shape_ok(s: Seq<char>, off: int, pos: int)
    requires
        0 <= pos <= s.len(),
        spec_lex_tree(s, off, pos) is Ok,
    ensures
        gtoks_shape_ok(spec_lex_tree(s, off, pos)->Ok_0.0),
    decreases s.len() - pos,
{
    if pos >= s.len() {
    } else {
        match spec_lex_tok(s, off, pos) {
            LexStep::Fail(msg, at) => {},
            LexStep::White => {
                lemma_lex_shape_ok(s, off, pos + 1);
            },
            LexStep::Tok(kind, len) => {
                lemma_lex_tok_len(s, off, pos);
                if kind == GTokKind::Symbol(SymbolKind::Hash) {
                } else {
                    let t = GTok { kind, start: off + pos, text: s.subrange(pos, pos + len) };
                    assert(gtok_shape_ok(t)) by {
                        if kind == GTokKind::RawTree {
                            lemma_raw_scan_bounds(s, pos + 1, 1);
                        }
                    }
                    if kind == GTokKind::Symbol(SymbolKind::SemiColon) {
                        assert(forall|i: int| 0 <= i < 1 ==> gtok_shape_ok(#[trigger] seq![t][i]));
                    } else {
                        lemma_lex_shape_ok(s, off, pos + len);
                        let rest = spec_lex_tree(s, off, pos + len)->Ok_0.0;
                        assert(forall|i: int|
                            0 <= i < (seq![t] + rest).len() ==> gtok_shape_ok(
                                #[trigger] (seq![t] + rest)[i],
                            ));
                    }
                }
            },
        }
    }
}

/// A token model shifted by an offset: same kind and text, moved start.
pub open spec fn shift_tok(t: GTok, off: int) -> GTok {
    GTok { kind: t.kind, start: t.start + off, text: t.text }
}

/// A lexing outcome shifted by an offset: every token start and the failure
/// offset move by `off`; kinds, texts, messages and the end position stay.
pub open spec fn shift_outcome(r: Result<(Seq<GTok>, int), GLexErr>, off: int) -> Result<
    (Seq<GTok>, int),
    GLexErr,
> {
    match r {
        Ok(p) => Ok((p.0.map_values(|t: GTok| shift_tok(t, off)), p.1)),
        Err(e) => Err(GLexErr { msg: e.msg, at: e.at + off }),
    }
}

/// Lexing is a pure function of the input and the offset: lexing the same
/// characters at offset `off` yields exactly the outcome of lexing them at
/// offset 0 with every span's start (and any error offset) shifted by
/// `off`.
pub proof fn lemma_lex_offset_shift(s: Seq<char>, off: int, pos: int)
    ensures
        spec_lex_tree(s, off, pos) == shift_outcome(spec_lex_tree(s, 0, pos), off),
    decreases s.len() - pos,
{
    if pos < 0 || pos >= s.len() {
        assert(Seq::<GTok>::empty().map_values(|t: GTok| shift_tok(t, off))
            =~= Seq::<GTok>::empty());
    } else {
        match spec_lex_tok(s, 0, pos) {
            LexStep::Fail(msg, at) => {},
            LexStep::White => {
                lemma_lex_offset_shift(s, off, pos + 1);
            },
            LexStep::Tok(kind, len) => {
                lemma_lex_tok_len(s, 0, pos);
                if kind == GTokKind::Symbol(SymbolKind::Hash) {
                    assert(Seq::<GTok>::empty().map_values(|t: GTok| shift_tok(t, off))
                        =~= Seq::<GTok>::empty());
                } else {
                    let t0 = GTok { kind, start: pos, text: s.subrange(pos, pos + len) };
                    let t1 = GTok { kind, start: off + pos, text: s.subrange(pos, pos + len) };
                    assert(shift_tok(t0, off) == t1);
                    if kind == GTokKind::Symbol(SymbolKind::SemiColon) {
                        assert(seq![t0].map_values(|t: GTok| shift_tok(t, off)) =~= seq![t1]);
                    } else {
                        lemma_lex_offset_shift(s, off, pos + len);
                        match spec_lex_tree(s, 0, pos + len) {
                            Ok(p) => {
                                assert((seq![t0] + p.0).map_values(|t: GTok| shift_tok(t, off))
                                    =~= seq![t1] + p.0.map_values(|t: GTok| shift_tok(t, off)));
                            },
                            Err(e) => {},
                        }
                    }
                }
            },
        }
    }
}

/// The tokens `toks` cover the characters of `s` from `lo` to `hi`, in
/// order and without overlap: each token's text is exactly the characters
/// its span points at, and every character between two spans (and before
/// the first and after the last) is whitespace. Concatenating the skipped
/// whitespace and the span texts therefore reproduces `s[lo..hi]` exactly.
pub open spec fn spans_cover(toks: Seq<GTok>, s: Seq<char>, off: int, lo: int, hi: int) -> bool
    decreases toks.len(),
{
    if toks.len() == 0 {
        forall|k: int| lo <= k < hi ==> whitespace(s[k])
    } else {
        let t = toks[0];
        &&& lo <= t.start - off
        &&& forall|k: int| lo <= k < t.start - off ==> whitespace(s[k])
        &&& t.text.len() >= 1
        &&& t.start - off + t.text.len() <= hi
        &&& t.text == s.subrange(t.start - off, t.start - off + t.text.len())
        &&& spans_cover(toks.drop_first(), s, off, t.start - off + t.text.len(), hi)
    }
}

/// Round-trip: on success, the produced tokens' spans cover the consumed
/// part of the input without gaps, apart from skipped whitespace.
pub proof fn lemma_lex_round_trip(s: Seq<char>, off: int, pos: int)
    requires
        0 <= pos <= s.len(),
        spec_lex_tree(s, off, pos) is Ok,
    ensures
        ({
            let p = spec_lex_tree(s, off, pos)->Ok_0;
            &&& pos <= p.1 <= s.len()
            &&& spans_cover(p.0, s, off, pos, p.1)
        }),
    decreases s.len() - pos,
{
    if pos >= s.len() {
    } else {
        match spec_lex_tok(s, off, pos) {
            LexStep::Fail(msg, at) => {},
            LexStep::White => {
                lemma_lex_round_trip(s, off, pos + 1);
                let p = spec_lex_tree(s, off, pos + 1)->Ok_0;
                lemma_spans_cover_widen(p.0, s, off, pos + 1, pos, p.1);
            },
            LexStep::Tok(kind, len) => {
                lemma_lex_tok_len(s, off, pos);
                if kind == GTokKind::Symbol(SymbolKind::Hash) {
                } else {
                    let t = GTok { kind, start: off + pos, text: s.subrange(pos, pos + len) };
                    if kind == GTokKind::Symbol(SymbolKind::SemiColon) {
                        assert(seq![t].drop_first() =~= Seq::<GTok>::empty());
                        assert(spans_cover(Seq::<GTok>::empty(), s, off, pos + len, pos + len));
                        assert(seq![t][0] == t);
                        assert(spans_cover(seq![t], s, off, pos, pos + len));
                    } else {
                        lemma_lex_round_trip(s, off, pos + len);
                        let p = spec_lex_tree(s, off, pos + len)->Ok_0;
                        assert((seq![t] + p.0).drop_first() =~= p.0);
                        assert(spans_cover(seq![t] + p.0, s, off, pos, p.1));
                    }
                }
            },
        }
    }
}

/// Widening the left end of a covered range over a whitespace character
/// keeps the covering.
proof fn lemma_spans_cover_widen(toks: Seq<GTok>, s: Seq<char>, off: int, lo: int, lo2: int, hi: int)
    requires
        spans_cover(toks, s, off, lo, hi),
        0 <= lo2 <= lo,
        forall|k: int| lo2 <= k < lo ==> whitespace(s[k]),
    ensures
        spans_cover(toks, s, off, lo2, hi),
    decreases toks.len(),
{
}

/// Wraps the collected tokens as the resulting tree token, whose span
/// covers the consumed prefix of the input.
fn finish_tree(input: &str, offset: usize, end: usize, tokens: Vec<Token>) -> (t: Token)
    requires
        end <= input@.len(),
        offset + input@.len() <= usize::MAX,
    ensures
        t.span.start == offset,
        t.span.text@ == input@.subrange(0, end as int),
        t.kind matches TokenKind::Tree(tt) && tt.tokens == tokens,
        t.wf(),
{
    let text = input.substring_char(0, end).to_owned();
    Token::new(TokenKind::Tree(TokenTree { tokens }), Span::new(offset, text))
}

} // verus!
