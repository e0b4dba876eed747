//! The recursive-descent parser: consumes an already-lexed token tree and
//! produces a statement, failing if not all tokens are consumed.
//!
//! Grammar:
//!
//! ```text
//! statement := '^' ident [';']            meta-command
//!            | expr [';']
//! expr      := primary ('->' ident)*      left-associative chain
//! primary   := '$'                        most recent result
//!            | '(' ... ')'                location literal, grouping, or void
//!            | 'select' ['*'] primary+    selection with filters
//!            | ident primary?             function shorthand, e.g. `show $`
//! ```
//!
//! A parenthesized region whose trimmed interior starts with `:` is handed
//! to the location sub-parser; any other region is lexed on demand and
//! parsed as a nested expression (an empty interior is the void literal).
//!
//! What a successful parse returns is pinned by the `stmt_parses` relation;
//! the location mini-grammar is pinned exactly by `spec_location`.

use crate::ast;
use crate::ast::{Context, GExpr, GLoc, GMetaVar, GStmt};
use crate::chars::{spec_trim, str_eq, trim_str};
use crate::lexer::{gtok_shape_ok, gtoks_shape_ok, models, spec_lex_tree, tokens_wf};
use crate::tokens::{GTok, GTokKind, SymbolKind, Token, TokenKind};
use crate::Error;
use vstd::prelude::*;

verus! {

// ---------------------------------------------------------------------------
// Unsigned decimal numbers
// ---------------------------------------------------------------------------
/// Whether a character is a decimal digit.
pub open spec fn is_digit(c: char) -> bool {
    48 <= c as u32 <= 57
}

pub open spec fn digit_val(c: char) -> int {
    c as u32 - 48
}

pub open spec fn all_digits(s: Seq<char>) -> bool {
    forall|i: int| 0 <= i < s.len() ==> is_digit(#[trigger] s[i])
}

/// The value of a digit string, most significant digit first.
pub open spec fn digits_val(s: Seq<char>) -> int
    decreases s.len(),
{
    if s.len() == 0 {
        0
    } else {
        digits_val(s.drop_last()) * 10 + digit_val(s.last())
    }
}

/// What parsing a decimal number yields: a value only for a non-empty
/// digits-only string whose value fits the machine's word.
pub open spec fn spec_parse_usize(s: Seq<char>) -> Option<int> {
    if s.len() >= 1 && all_digits(s) && digits_val(s) <= usize::MAX {
        Some(digits_val(s))
    } else {
        None
    }
}

proof fn lemma_digits_val_nonneg(s: Seq<char>)
    requires
        all_digits(s),
    ensures
        digits_val(s) >= 0,
    decreases s.len(),
{
    if s.len() > 0 {
        assert(all_digits(s.drop_last()));
        lemma_digits_val_nonneg(s.drop_last());
    }
}

/// With only digits, a prefix never has a larger value than the whole.
proof fn lemma_digits_val_prefix_le(s: Seq<char>, k: int)
    requires
        all_digits(s),
        0 <= k <= s.len(),
    ensures
        digits_val(s.subrange(0, k)) <= digits_val(s),
    decreases s.len() - k,
{
    if k < s.len() {
        lemma_digits_val_prefix_le(s, k + 1);
        let p = s.subrange(0, k);
        let q = s.subrange(0, k + 1);
        assert(q.drop_last() =~= p);
        assert(all_digits(p));
        lemma_digits_val_nonneg(p);
        assert(digits_val(q) == digits_val(p) * 10 + digit_val(q.last()));
        assert(digits_val(p) * 10 >= digits_val(p)) by (nonlinear_arith)
            requires
                digits_val(p) >= 0,
        ;
    } else {
        assert(s.subrange(0, k) =~= s);
    }
}

/// Parses a non-negative decimal number, verified against
/// `spec_parse_usize`: fails on an empty string, a non-digit, or overflow.
pub fn parse_usize_str(s: &str) -> (r: Option<usize>)
    ensures
        match spec_parse_usize(s@) {
            Some(v) => r matches Some(x) && x as int == v,
            None => r is None,
        },
{
    let n = s.unicode_len();
    if n == 0 {
        return None;
    }
    let mut acc: usize = 0;
    let mut i: usize = 0;
    while i < n
        invariant
            n == s@.len(),
            0 <= i <= n,
            all_digits(s@.subrange(0, i as int)),
            acc as int == digits_val(s@.subrange(0, i as int)),
        decreases n - i,
    {
        let c = s.get_char(i);
        let u = c as u32;
        if u < 48 || u > 57 {
            assert(!is_digit(s@[i as int]));
            return None;
        }
        let d = (u - 48) as usize;
        let ghost pre = s@.subrange(0, i as int);
        let ghost cur = s@.subrange(0, i as int + 1);
        proof {
            assert(cur.drop_last() =~= pre);
            assert(all_digits(cur));
        }
        if acc > (usize::MAX - d) / 10 {
            proof {
                lemma_digits_val_nonneg(pre);
                assert(acc as int * 10 + d > usize::MAX) by (nonlinear_arith)
                    requires
                        acc as int > (usize::MAX as int - d) / 10,
                        0 <= d < 10,
                        acc >= 0,
                ;
                if all_digits(s@) {
                    lemma_digits_val_prefix_le(s@, i as int + 1);
                    assert(digits_val(s@) > usize::MAX);
                }
            }
            return None;
        }
        proof {
            assert(acc as int * 10 + d <= usize::MAX) by (nonlinear_arith)
                requires
                    acc as int <= (usize::MAX as int - d) / 10,
                    0 <= d < 10,
                    acc >= 0,
            ;
        }
        acc = acc * 10 + d;
        i = i + 1;
    }
    proof {
        assert(s@.subrange(0, n as int) =~= s@);
    }
    Some(acc)
}

// ---------------------------------------------------------------------------
// The location mini-grammar
// ---------------------------------------------------------------------------
/// First index at or after `i` holding a colon, or the length if none.
pub open spec fn find_colon(s: Seq<char>, i: int) -> int
    decreases s.len() - i,
{
    if i < 0 || i >= s.len() {
        s.len() as int
    } else if s[i] == ':' {
        i
    } else {
        find_colon(s, i + 1)
    }
}

/// The colon-separated segments of a string; a string without colons is one
/// segment, and every colon separates two (possibly empty) segments.
pub open spec fn split_colon(s: Seq<char>) -> Seq<Seq<char>>
    decreases s.len(),
    via split_colon_decreases
{
    let i = find_colon(s, 0);
    if i >= s.len() {
        seq![s]
    } else {
        seq![s.subrange(0, i)] + split_colon(s.subrange(i + 1, s.len() as int))
    }
}

#[via_fn]
proof fn split_colon_decreases(s: Seq<char>) {
    lemma_find_colon_bounds(s, 0);
}

proof fn lemma_find_colon_bounds(s: Seq<char>, i: int)
    requires
        0 <= i <= s.len(),
    ensures
        i <= find_colon(s, i) <= s.len(),
    decreases s.len() - i,
{
    if i < s.len() && s[i] != ':' {
        lemma_find_colon_bounds(s, i + 1);
    }
}

pub open spec fn msg_loc_colon(s: Seq<char>) -> Seq<char> {
    "Invalid location, expected `:`, found `"@ + s + "`"@
}

pub open spec fn msg_loc_number(seg: Seq<char>) -> Seq<char> {
    "Invalid location, expected number, found `"@ + seg + "`"@
}

pub open spec fn msg_loc_unexpected(seg: Seq<char>) -> Seq<char> {
    "Invalid location, unexpected `"@ + seg + "`"@
}

/// The trimmed colon-separated segments after the leading colon, with one
/// tolerated trailing colon dropped.
pub open spec fn loc_segments(s: Seq<char>) -> Seq<Seq<char>> {
    let segs = split_colon(s.subrange(1, s.len() as int)).map_values(|t: Seq<char>| spec_trim(t));
    if segs.len() > 0 && segs.last().len() == 0 {
        segs.drop_last()
    } else {
        segs
    }
}

/// What the location sub-parser yields for a trimmed literal.
///
/// The literal must start with `:`. The first segment is a line number if
/// it parses as one, else a file name; at most `file:line:column` is
/// accepted, each part optional as the grammar allows, and line and column
/// are kept as written.
pub open spec fn spec_location(s: Seq<char>) -> Result<GLoc, Seq<char>> {
    if s.len() == 0 || s[0] != ':' {
        Err(msg_loc_colon(s))
    } else {
        let segs = loc_segments(s);
        if segs.len() == 0 {
            Ok(GLoc { file: None, line: None, column: None })
        } else {
            match spec_parse_usize(segs[0]) {
                Some(line) => {
                    if segs.len() == 1 {
                        Ok(GLoc { file: None, line: Some(line), column: None })
                    } else if segs.len() == 2 {
                        match spec_parse_usize(segs[1]) {
                            Some(col) => Ok(
                                GLoc { file: None, line: Some(line), column: Some(col) },
                            ),
                            None => Err(msg_loc_number(segs[1])),
                        }
                    } else {
                        Err(msg_loc_unexpected(segs[2]))
                    }
                },
                None => {
                    if segs.len() == 1 {
                        Ok(GLoc { file: Some(segs[0]), line: None, column: None })
                    } else if segs.len() <= 3 {
                        match spec_parse_usize(segs[1]) {
                            Some(line) => {
                                if segs.len() == 2 {
                                    Ok(GLoc { file: Some(segs[0]), line: Some(line), column: None })
                                } else {
                                    match spec_parse_usize(segs[2]) {
                                        Some(col) => Ok(
                                            GLoc {
                                                file: Some(segs[0]),
                                                line: Some(line),
                                                column: Some(col),
                                            },
                                        ),
                                        None => Err(msg_loc_number(segs[2])),
                                    }
                                }
                            },
                            None => Err(msg_loc_number(segs[1])),
                        }
                    } else {
                        Err(msg_loc_unexpected(segs[3]))
                    }
                },
            }
        }
    }
}

/// The views of a vector of strings.
pub open spec fn strs_view(v: Seq<String>) -> Seq<Seq<char>> {
    v.map_values(|x: String| x@)
}

/// Splits a string at its colons, verified against `split_colon`.
fn split_colon_exec(s: &str) -> (r: Vec<String>)
    ensures
        strs_view(r@) == split_colon(s@),
    decreases s@.len(),
{
    proof {
        lemma_find_colon_bounds(s@, 0);
    }
    let n = s.unicode_len();
    let mut i: usize = 0;
    while i < n && s.get_char(i) != ':'
        invariant
            n == s@.len(),
            0 <= i <= n,
            find_colon(s@, 0) == find_colon(s@, i as int),
        decreases n - i,
    {
        i = i + 1;
    }
    assert(find_colon(s@, i as int) == i as int);
    if i >= n {
        let mut r: Vec<String> = Vec::new();
        r.push(s.to_owned());
        proof {
            assert(strs_view(r@) =~= split_colon(s@));
        }
        r
    } else {
        let head = s.substring_char(0, i).to_owned();
        let rest = s.substring_char(i + 1, n);
        let mut r = split_colon_exec(rest);
        r.insert(0, head);
        proof {
            assert(strs_view(r@) =~= seq![s@.subrange(0, i as int)] + strs_view(
                r@.subrange(1, r@.len() as int),
            ));
            assert(strs_view(r@.subrange(1, r@.len() as int)) =~= split_colon(rest@));
            assert(strs_view(r@) =~= split_colon(s@));
        }
        r
    }
}

/// Parses a location literal.
///
/// A location is `:file`, `:line`, `:file:line`, `:line:col` or
/// `:file:line:col`, each part optional and a trailing colon tolerated; a
/// bare `:` is the fully unspecified location. The first segment counts as
/// a line number exactly when it parses as one.
pub struct LocationParser {
    pub input: String,
    pub ctx: Context,
}

impl LocationParser {
    pub fn new(input: &str, ctx: Context) -> (r: LocationParser)
        ensures
            r.input@ == input@,
    {
        LocationParser { input: input.to_owned(), ctx }
    }

    /// Parses the literal; the outcome is pinned by `spec_location`.
    pub fn location(self) -> (r: Result<ast::Location, Error>)
        ensures
            match spec_location(self.input@) {
                Ok(gl) => r matches Ok(loc) && loc.model() == gl,
                Err(m) => r matches Err(e) && (e matches Error::Parsing(msg) && msg@ == m),
            },
    {
        let s = self.input.as_str();
        let n = s.unicode_len();
        if n == 0 || s.get_char(0) != ':' {
            let mut msg = String::from_str("Invalid location, expected `:`, found `");
            msg.append(s);
            msg.append("`");
            return Err(Error::Parsing(msg));
        }
        let rest = s.substring_char(1, n);
        let raw_segs = split_colon_exec(rest);
        let mut segs: Vec<String> = Vec::new();
        let mut k: usize = 0;
        while k < raw_segs.len()
            invariant
                0 <= k <= raw_segs@.len(),
                segs@.len() == k,
                strs_view(segs@) =~= strs_view(raw_segs@).map_values(
                    |t: Seq<char>| spec_trim(t),
                ).subrange(0, k as int),
            decreases raw_segs@.len() - k,
        {
            let trimmed = trim_str(raw_segs[k].as_str());
            segs.push(trimmed.to_owned());
            proof {
                assert(strs_view(segs@) =~= strs_view(raw_segs@).map_values(
                    |t: Seq<char>| spec_trim(t),
                ).subrange(0, k as int + 1));
            }
            k = k + 1;
        }
        proof {
            assert(strs_view(segs@) =~= split_colon(rest@).map_values(
                |t: Seq<char>| spec_trim(t),
            ));
        }
        if segs.len() > 0 && segs[segs.len() - 1].as_str().unicode_len() == 0 {
            let ghost before = segs@;
            let _ = segs.pop();
            proof {
                assert(strs_view(segs@) =~= strs_view(before).drop_last());
            }
        }
        let ghost gsegs = loc_segments(self.input@);
        proof {
            assert(rest@ =~= self.input@.subrange(1, self.input@.len() as int));
            assert(strs_view(segs@) =~= gsegs);
        }
        if segs.len() == 0 {
            return Ok(ast::Location::new(None, None, None, self.ctx));
        }
        match parse_usize_str(segs[0].as_str()) {
            Some(line) => {
                if segs.len() == 1 {
                    Ok(ast::Location::new(None, Some(line), None, self.ctx))
                } else if segs.len() == 2 {
                    match parse_usize_str(segs[1].as_str()) {
                        Some(col) => Ok(
                            ast::Location::new(None, Some(line), Some(col), self.ctx),
                        ),
                        None => Err(Error::Parsing(loc_number_msg(&segs[1]))),
                    }
                } else {
                    Err(Error::Parsing(loc_unexpected_msg(&segs[2])))
                }
            },
            None => {
                if segs.len() == 1 {
                    let file = segs[0].clone();
                    Ok(ast::Location::new(Some(file), None, None, self.ctx))
                } else if segs.len() <= 3 {
                    match parse_usize_str(segs[1].as_str()) {
                        Some(line) => {
                            if segs.len() == 2 {
                                let file = segs[0].clone();
                                Ok(ast::Location::new(Some(file), Some(line), None, self.ctx))
                            } else {
                                match parse_usize_str(segs[2].as_str()) {
                                    Some(col) => {
                                        let file = segs[0].clone();
                                        Ok(
                                            ast::Location::new(
                                                Some(file),
                                                Some(line),
                                                Some(col),
                                                self.ctx,
                                            ),
                                        )
                                    },
                                    None => Err(Error::Parsing(loc_number_msg(&segs[2]))),
                                }
                            }
                        },
                        None => Err(Error::Parsing(loc_number_msg(&segs[1]))),
                    }
                } else {
                    Err(Error::Parsing(loc_unexpected_msg(&segs[3])))
                }
            },
        }
    }
}

// ---------------------------------------------------------------------------
// The grammar, as a relation between token models and expression models
// ---------------------------------------------------------------------------
pub open spec fn is_sym(t: GTok, s: SymbolKind) -> bool {
    t.kind == GTokKind::Symbol(s)
}

pub open spec fn is_ident_named(t: GTok, name: Seq<char>) -> bool {
    t.kind == GTokKind::Ident && t.text == name
}

pub open spec fn is_raw(t: GTok) -> bool {
    t.kind == GTokKind::RawTree && t.text.len() >= 2
}

/// The interior of a raw tree: its text without the delimiters.
pub open spec fn raw_inner(t: GTok) -> Seq<char> {
    t.text.subrange(1, t.text.len() - 1)
}

pub open spec fn raw_trimmed(t: GTok) -> Seq<char> {
    spec_trim(raw_inner(t))
}

/// What lexing a raw tree's interior yields; spans are absolute.
pub open spec fn raw_lexes_to(t: GTok) -> Result<
    (Seq<GTok>, int),
    crate::lexer::GLexErr,
> {
    spec_lex_tree(raw_inner(t), t.start + 1, 0)
}

/// A raw tree is a location literal when its trimmed interior starts with
/// a colon.
pub open spec fn is_location_text(s: Seq<char>) -> bool {
    s.len() >= 1 && s[0] == ':'
}

/// The total text length of a token sequence: the termination measure for
/// descending into raw trees, whose interiors are strictly shorter.
pub open spec fn sum_text(ts: Seq<GTok>) -> int
    decreases ts.len(),
{
    if ts.len() == 0 {
        0
    } else {
        ts[0].text.len() + sum_text(ts.drop_first())
    }
}

proof fn lemma_sum_text_nonneg(ts: Seq<GTok>)
    ensures
        sum_text(ts) >= 0,
    decreases ts.len(),
{
    if ts.len() > 0 {
        lemma_sum_text_nonneg(ts.drop_first());
    }
}

proof fn lemma_sum_text_element(ts: Seq<GTok>, i: int)
    requires
        0 <= i < ts.len(),
    ensures
        ts[i].text.len() <= sum_text(ts),
    decreases i,
{
    lemma_sum_text_nonneg(ts.drop_first());
    if i > 0 {
        lemma_sum_text_element(ts.drop_first(), i - 1);
    }
}

/// Covered spans take no more characters than the range they cover.
proof fn lemma_spans_sum(toks: Seq<GTok>, s: Seq<char>, off: int, lo: int, hi: int)
    requires
        crate::lexer::spans_cover(toks, s, off, lo, hi),
        lo <= hi,
    ensures
        sum_text(toks) <= hi - lo,
    decreases toks.len(),
{
    if toks.len() > 0 {
        let t = toks[0];
        lemma_spans_sum(toks.drop_first(), s, off, t.start - off + t.text.len(), hi);
    }
}

proof fn lemma_sum_suffix_step(ts: Seq<GTok>, p: int)
    requires
        0 <= p < ts.len(),
    ensures
        sum_text(ts.subrange(p, ts.len() as int)) == ts[p].text.len() + sum_text(
            ts.subrange(p + 1, ts.len() as int),
        ),
{
    let suf = ts.subrange(p, ts.len() as int);
    assert(suf.drop_first() =~= ts.subrange(p + 1, ts.len() as int));
    assert(suf[0] == ts[p]);
}

proof fn lemma_sum_suffix_monotone(ts: Seq<GTok>, a: int, b: int)
    requires
        0 <= a <= b <= ts.len(),
    ensures
        sum_text(ts.subrange(b, ts.len() as int)) <= sum_text(ts.subrange(a, ts.len() as int)),
    decreases b - a,
{
    if a < b {
        lemma_sum_suffix_step(ts, a);
        lemma_sum_suffix_monotone(ts, a + 1, b);
    }
}

proof fn lemma_sum_suffix_strict(ts: Seq<GTok>, a: int, b: int)
    requires
        0 <= a < b <= ts.len(),
        ts[a].text.len() >= 1,
    ensures
        sum_text(ts.subrange(b, ts.len() as int)) < sum_text(ts.subrange(a, ts.len() as int)),
{
    lemma_sum_suffix_step(ts, a);
    lemma_sum_suffix_monotone(ts, a + 1, b);
}

/// Tokens `lo..hi` of `toks` parse as the primary expression `e`.
pub open spec fn primary_parses(toks: Seq<GTok>, lo: int, hi: int, e: GExpr) -> bool
    decreases sum_text(toks), e, 0int,
    via primary_parses_decreases
{
    if !(0 <= lo < hi <= toks.len()) {
        false
    } else {
        let t = toks[lo];
        ||| (match e {
            GExpr::MetaVar(mv) => mv == GMetaVar::Dollar && hi == lo + 1 && is_sym(
                t,
                SymbolKind::Dollar,
            ),
            GExpr::Location(gl) => hi == lo + 1 && is_raw(t) && is_location_text(raw_trimmed(t))
                && spec_location(raw_trimmed(t)) == Ok::<GLoc, Seq<char>>(gl),
            GExpr::Void => hi == lo + 1 && is_raw(t) && !is_location_text(raw_trimmed(t)) && (
            raw_lexes_to(t) matches Ok(p) && p.0.len() == 0),
            GExpr::Select(many, filters) => {
                &&& is_ident_named(t, "select"@)
                &&& if many {
                    &&& lo + 1 < hi
                    &&& is_sym(toks[lo + 1], SymbolKind::Asterisk)
                    &&& filters_parse(toks, lo + 2, hi, filters)
                } else {
                    &&& !(lo + 1 < hi && is_sym(toks[lo + 1], SymbolKind::Asterisk))
                    &&& filters_parse(toks, lo + 1, hi, filters)
                }
            },
            GExpr::Apply(name, lhs, args) => {
                &&& is_ident_named(t, name)
                &&& name != "select"@
                &&& args.len() == 0
                &&& if hi == lo + 1 {
                    *lhs == GExpr::Void
                } else {
                    primary_parses(toks, lo + 1, hi, *lhs)
                }
            },
            GExpr::Projection(_, _) => false,
        })
        ||| (hi == lo + 1 && is_raw(t) && !is_location_text(raw_trimmed(t)) && (raw_lexes_to(
            t,
        ) matches Ok(p) && p.0.len() > 0 && expr_parses(p.0, 0, p.0.len() as int, e)))
    }
}

#[via_fn]
proof fn primary_parses_decreases(toks: Seq<GTok>, lo: int, hi: int, e: GExpr) {
    if 0 <= lo < hi <= toks.len() {
        let t = toks[lo];
        if is_raw(t) {
            match raw_lexes_to(t) {
                Ok(p) => {
                    crate::lexer::lemma_lex_round_trip(raw_inner(t), t.start + 1, 0);
                    lemma_spans_sum(p.0, raw_inner(t), t.start + 1, 0, p.1);
                    lemma_sum_text_element(toks, lo);
                    lemma_sum_text_nonneg(p.0);
                    assert(sum_text(p.0) >= 0);
                    assert(sum_text(p.0) <= p.1);
                    assert(p.1 <= raw_inner(t).len());
                    assert(raw_inner(t).len() == t.text.len() - 2);
                    assert(sum_text(p.0) < sum_text(toks));
                },
                Err(_) => {},
            }
        }
    }
}

/// Tokens `lo..hi` parse as the non-empty filter list `es`, one primary
/// after another.
pub open spec fn filters_parse(toks: Seq<GTok>, lo: int, hi: int, es: Seq<GExpr>) -> bool
    decreases sum_text(toks), es, 0int,
{
    if es.len() == 0 {
        false
    } else if es.len() == 1 {
        primary_parses(toks, lo, hi, es[0])
    } else {
        exists|m: int|
            #![trigger toks[m]]
            lo < m < hi && filters_parse(toks, lo, m, es.drop_last()) && primary_parses(
                toks,
                m,
                hi,
                es.last(),
            )
    }
}

/// Tokens `lo..hi` parse as the expression `e`: a primary, possibly
/// extended by a left-associative `-> ident` chain.
pub open spec fn expr_parses(toks: Seq<GTok>, lo: int, hi: int, e: GExpr) -> bool
    decreases sum_text(toks), e, 1int,
{
    ||| primary_parses(toks, lo, hi, e)
    ||| (e matches GExpr::Apply(name, lhs, args) && args.len() == 0 && exists|m: int|
        #![trigger toks[m]]
        lo < m && m + 2 == hi && hi <= toks.len() && expr_parses(toks, lo, m, *lhs) && is_sym(
            toks[m],
            SymbolKind::ArrowRight,
        ) && is_ident_named(toks[m + 1], name))
}

/// The whole token tree parses as the statement `g`: a meta-command or an
/// expression, each with an optional trailing semicolon, and nothing after.
pub open spec fn stmt_parses(toks: Seq<GTok>, g: GStmt) -> bool {
    match g {
        GStmt::Meta(mk) => {
            &&& toks.len() >= 2
            &&& is_sym(toks[0], SymbolKind::Caret)
            &&& is_ident_named(
                toks[1],
                if mk == crate::ast::MetaKind::Help {
                    "help"@
                } else {
                    "exit"@
                },
            )
            &&& (toks.len() == 2 || (toks.len() == 3 && is_sym(toks[2], SymbolKind::SemiColon)))
        },
        GStmt::Expr(e) => exists|m: int|
            expr_parses(toks, 0, m, e) && (m == toks.len() || (m + 1 == toks.len() && is_sym(
                toks[m],
                SymbolKind::SemiColon,
            ))),
        GStmt::ApplyShorthand(_, _, _) => false,
    }
}

// ---------------------------------------------------------------------------
// The parse, as a total function of the token models
// ---------------------------------------------------------------------------
//
// `spec_statement` and its helpers say exactly what the parser does with
// any token tree: which statement comes back, or that parsing fails. The
// relations above describe the grammar; these functions pin the parser to
// one outcome, so that success is owed whenever a statement parses.
/// Joins already-collected filters with the outcome for the rest.
pub open spec fn filters_join(
    prefix: Seq<GExpr>,
    rest: Result<(Seq<GExpr>, int), ()>,
) -> Result<(Seq<GExpr>, int), ()> {
    match rest {
        Ok(p) => Ok((prefix + p.0, p.1)),
        Err(e) => Err(e),
    }
}

proof fn lemma_filters_join_nil(rest: Result<(Seq<GExpr>, int), ()>)
    ensures
        filters_join(Seq::empty(), rest) == rest,
{
    match rest {
        Ok(p) => {
            assert(Seq::empty() + p.0 =~= p.0);
        },
        Err(_) => {},
    }
}

proof fn lemma_filters_join_assoc(a: Seq<GExpr>, b: Seq<GExpr>, rest: Result<(Seq<GExpr>, int), ()>)
    ensures
        filters_join(a, filters_join(b, rest)) == filters_join(a + b, rest),
{
    match rest {
        Ok(p) => {
            assert(a + (b + p.0) =~= (a + b) + p.0);
        },
        Err(_) => {},
    }
}

/// What parsing one primary at `pos` yields: the expression's model and
/// the position after it, nothing if no primary starts here, or a failure.
pub open spec fn spec_primary(toks: Seq<GTok>, pos: int) -> Result<Option<(GExpr, int)>, ()>
    decreases sum_text(toks), toks.len() - pos, 1int,
    via spec_primary_decreases
{
    if pos < 0 || pos >= toks.len() {
        Ok(None)
    } else {
        let t = toks[pos];
        if is_sym(t, SymbolKind::Dollar) {
            Ok(Some((GExpr::MetaVar(GMetaVar::Dollar), pos + 1)))
        } else if t.kind == GTokKind::Ident {
            if t.text == "select"@ {
                spec_select(toks, pos)
            } else {
                match spec_primary(toks, pos + 1) {
                    Err(e) => Err(e),
                    Ok(None) => Ok(
                        Some((GExpr::Apply(t.text, Box::new(GExpr::Void), Seq::empty()), pos + 1)),
                    ),
                    Ok(Some((e, p))) => Ok(
                        Some((GExpr::Apply(t.text, Box::new(e), Seq::empty()), p)),
                    ),
                }
            }
        } else if t.kind == GTokKind::RawTree {
            if t.text.len() < 2 {
                Err(())
            } else if is_location_text(raw_trimmed(t)) {
                match spec_location(raw_trimmed(t)) {
                    Ok(gl) => Ok(Some((GExpr::Location(gl), pos + 1))),
                    Err(m) => Err(()),
                }
            } else {
                match raw_lexes_to(t) {
                    Err(e) => Err(()),
                    Ok(p) => if p.0.len() == 0 {
                        Ok(Some((GExpr::Void, pos + 1)))
                    } else {
                        match spec_expr(p.0, 0) {
                            Err(e) => Err(()),
                            Ok(None) => Err(()),
                            Ok(Some((e, q))) => if q == p.0.len() {
                                Ok(Some((e, pos + 1)))
                            } else {
                                Err(())
                            },
                        }
                    },
                }
            }
        } else {
            Ok(None)
        }
    }
}

#[via_fn]
proof fn spec_primary_decreases(toks: Seq<GTok>, pos: int) {
    if 0 <= pos < toks.len() {
        let t = toks[pos];
        if is_raw(t) {
            match raw_lexes_to(t) {
                Ok(p) => {
                    crate::lexer::lemma_lex_round_trip(raw_inner(t), t.start + 1, 0);
                    lemma_spans_sum(p.0, raw_inner(t), t.start + 1, 0, p.1);
                    lemma_sum_text_element(toks, pos);
                    lemma_sum_text_nonneg(p.0);
                    assert(sum_text(p.0) < sum_text(toks));
                },
                Err(_) => {},
            }
        }
    }
}

/// What parsing a `select` application starting at `pos` yields.
pub open spec fn spec_select(toks: Seq<GTok>, pos: int) -> Result<Option<(GExpr, int)>, ()>
    decreases sum_text(toks), toks.len() - pos, 0int,
{
    if pos < 0 || pos >= toks.len() {
        Err(())
    } else {
        let many = pos + 1 < toks.len() && is_sym(toks[pos + 1], SymbolKind::Asterisk);
        let fstart = if many {
            pos + 2
        } else {
            pos + 1
        };
        match spec_filters(toks, fstart) {
            Err(e) => Err(e),
            Ok(p) => if p.0.len() == 0 {
                Err(())
            } else {
                Ok(Some((GExpr::Select(many, p.0), p.1)))
            },
        }
    }
}

/// What collecting filter primaries from `pos` yields: the filters parsed
/// one after another until no primary starts, and the position after them.
pub open spec fn spec_filters(toks: Seq<GTok>, pos: int) -> Result<(Seq<GExpr>, int), ()>
    decreases sum_text(toks), toks.len() - pos, 2int,
{
    match spec_primary(toks, pos) {
        Err(e) => Err(e),
        Ok(None) => Ok((Seq::empty(), pos)),
        Ok(Some((e, p))) => if !(pos < p && p <= toks.len()) {
            Err(())
        } else {
            match spec_filters(toks, p) {
                Err(e2) => Err(e2),
                Ok(rest) => Ok((seq![e] + rest.0, rest.1)),
            }
        },
    }
}

/// What extending `acc` by the `-> ident` chain from `pos` yields.
pub open spec fn spec_chain(toks: Seq<GTok>, pos: int, acc: GExpr) -> Result<(GExpr, int), ()>
    decreases sum_text(toks), toks.len() - pos, 0int,
{
    if 0 <= pos < toks.len() && is_sym(toks[pos], SymbolKind::ArrowRight) {
        if pos + 1 < toks.len() && toks[pos + 1].kind == GTokKind::Ident {
            spec_chain(
                toks,
                pos + 2,
                GExpr::Apply(toks[pos + 1].text, Box::new(acc), Seq::empty()),
            )
        } else {
            Err(())
        }
    } else {
        Ok((acc, pos))
    }
}

/// What parsing one expression at `pos` yields: a primary, extended by its
/// chain.
pub open spec fn spec_expr(toks: Seq<GTok>, pos: int) -> Result<Option<(GExpr, int)>, ()>
    decreases sum_text(toks), toks.len() - pos, 3int,
{
    match spec_primary(toks, pos) {
        Err(e) => Err(e),
        Ok(None) => Ok(None),
        Ok(Some((e, p))) => if !(pos <= p && p <= toks.len()) {
            Err(())
        } else {
            match spec_chain(toks, p, e) {
                Err(e2) => Err(e2),
                Ok(r) => Ok(Some(r)),
            }
        },
    }
}

/// What parsing the whole token tree yields: the one statement the parser
/// returns, or a failure. Together with `stmt_parses` this pins the parser
/// in both directions: the result matches the grammar, and parsing
/// succeeds exactly when this function says so.
pub open spec fn spec_statement(toks: Seq<GTok>) -> Result<GStmt, ()> {
    if toks.len() == 0 {
        Err(())
    } else if is_sym(toks[0], SymbolKind::Caret) {
        if toks.len() >= 2 && toks[1].kind == GTokKind::Ident {
            if toks[1].text == "help"@ || toks[1].text == "exit"@ {
                let mk = if toks[1].text == "help"@ {
                    crate::ast::MetaKind::Help
                } else {
                    crate::ast::MetaKind::Exit
                };
                if toks.len() == 2 || (toks.len() == 3 && is_sym(toks[2], SymbolKind::SemiColon)) {
                    Ok(GStmt::Meta(mk))
                } else {
                    Err(())
                }
            } else {
                Err(())
            }
        } else {
            Err(())
        }
    } else {
        match spec_expr(toks, 0) {
            Err(e) => Err(()),
            Ok(None) => Err(()),
            Ok(Some((e, p))) => if p == toks.len() || (p + 1 == toks.len() && is_sym(
                toks[p],
                SymbolKind::SemiColon,
            )) {
                Ok(GStmt::Expr(e))
            } else {
                Err(())
            },
        }
    }
}

/// Appending one more parsed filter keeps the filter-list relation.
proof fn lemma_filters_push(toks: Seq<GTok>, a: int, b: int, c: int, es: Seq<GExpr>, g: GExpr)
    requires
        filters_parse(toks, a, b, es),
        primary_parses(toks, b, c, g),
    ensures
        filters_parse(toks, a, c, es.push(g)),
{
    let ghost w = toks[b];
    assert(es.push(g).drop_last() =~= es);
    assert(es.push(g).last() == g);
    if es.len() == 1 {
        assert(primary_parses(toks, a, b, es[0]));
    }
    assert(a < b < c);
    assert(filters_parse(toks, a, c, es.push(g)));
}

// ---------------------------------------------------------------------------
// The parser
// ---------------------------------------------------------------------------
pub struct Parser {
    pub tokens: Vec<Token>,
    pub position: usize,
    pub ctx: Context,
}

impl Parser {
    /// Validity of the parser state: the position stays within the tokens,
    /// which have the shape the lexer produces.
    pub open spec fn inv(&self) -> bool {
        &&& self.position as int <= self.tokens@.len()
        &&& tokens_wf(self.tokens@)
        &&& gtoks_shape_ok(models(self.tokens@))
    }

    /// The models of this parser's tokens.
    pub open spec fn toks(&self) -> Seq<GTok> {
        models(self.tokens@)
    }

    /// The total text length still ahead: the measure that shrinks when the
    /// parser descends into a raw tree or consumes a token.
    pub open spec fn remaining(&self) -> int {
        sum_text(self.toks().subrange(self.position as int, self.toks().len() as int))
    }

    fn bump(&mut self)
        requires
            old(self).inv(),
        ensures
            final(self).inv(),
            final(self).tokens == old(self).tokens,
            final(self).ctx == old(self).ctx,
            old(self).position < old(self).tokens@.len() ==> final(self).position == old(
                self,
            ).position + 1,
            old(self).position >= old(self).tokens@.len() ==> final(self).position == old(
                self,
            ).position,
    {
        if self.position < self.tokens.len() {
            self.position = self.position + 1;
        }
    }

    /// Whether the next token is the given symbol.
    fn peek_is_sym(&self, k: SymbolKind) -> (r: bool)
        ensures
            r == (self.position < self.tokens@.len() && is_sym(
                self.toks()[self.position as int],
                k,
            )),
    {
        if self.position < self.tokens.len() {
            match &self.tokens[self.position].kind {
                TokenKind::Symbol(s) => *s == k,
                _ => false,
            }
        } else {
            false
        }
    }

    fn peek_is_ident(&self) -> (r: bool)
        ensures
            r == (self.position < self.tokens@.len() && self.toks()[self.position as int].kind
                == GTokKind::Ident),
    {
        if self.position < self.tokens.len() {
            match &self.tokens[self.position].kind {
                TokenKind::Ident => true,
                _ => false,
            }
        } else {
            false
        }
    }

    fn peek_is_raw(&self) -> (r: bool)
        ensures
            r == (self.position < self.tokens@.len() && self.toks()[self.position as int].kind
                == GTokKind::RawTree),
    {
        if self.position < self.tokens.len() {
            match &self.tokens[self.position].kind {
                TokenKind::RawTree => true,
                _ => false,
            }
        } else {
            false
        }
    }

    /// Consumes the next token, which must be an identifier, and returns it.
    fn identifier(&mut self) -> (r: Result<ast::Identifier, Error>)
        requires
            old(self).inv(),
        ensures
            final(self).inv(),
            final(self).tokens == old(self).tokens,
            final(self).ctx == old(self).ctx,
            match r {
                Ok(id) => {
                    &&& old(self).position < old(self).toks().len()
                    &&& old(self).toks()[old(self).position as int].kind == GTokKind::Ident
                    &&& id.name@ == old(self).toks()[old(self).position as int].text
                    &&& final(self).position == old(self).position + 1
                },
                Err(e) => e matches Error::Parsing(_) && final(self).position == old(
                    self,
                ).position && (old(self).position >= old(self).toks().len() || old(self).toks()[old(
                    self,
                ).position as int].kind != GTokKind::Ident),
            },
    {
        if self.position >= self.tokens.len() {
            return Err(Error::Parsing(String::from_str("Unexpected end of statement")));
        }
        let is_ident = match &self.tokens[self.position].kind {
            TokenKind::Ident => true,
            _ => false,
        };
        if is_ident {
            let name = self.tokens[self.position].span.text.clone();
            let id = ast::Identifier::new(name, self.ctx.clone());
            self.bump();
            Ok(id)
        } else {
            let shown = self.tokens[self.position].to_display_string();
            let mut msg = String::from_str("Expected identifier, found `");
            msg.append(shown.as_str());
            msg.append("`");
            Err(Error::Parsing(msg))
        }
    }

    /// Consumes an optional trailing semicolon; any other remaining token
    /// is an error.
    fn maybe_semi(&mut self) -> (r: Result<(), Error>)
        requires
            old(self).inv(),
        ensures
            final(self).inv(),
            final(self).tokens == old(self).tokens,
            final(self).ctx == old(self).ctx,
            match r {
                Ok(u) => (old(self).position >= old(self).toks().len() && final(self).position
                    == old(self).position) || (old(self).position < old(self).toks().len()
                    && is_sym(
                    old(self).toks()[old(self).position as int],
                    SymbolKind::SemiColon,
                ) && final(self).position == old(self).position + 1),
                Err(e) => e matches Error::Parsing(_) && old(self).position < old(
                    self,
                ).toks().len() && !is_sym(
                    old(self).toks()[old(self).position as int],
                    SymbolKind::SemiColon,
                ) && final(self).position == old(self).position,
            },
    {
        if self.position >= self.tokens.len() {
            return Ok(());
        }
        if self.peek_is_sym(SymbolKind::SemiColon) {
            self.bump();
            Ok(())
        } else {
            let shown = self.tokens[self.position].to_display_string();
            let mut msg = String::from_str("Unexpected token: `");
            msg.append(shown.as_str());
            msg.append("`");
            Err(Error::Parsing(msg))
        }
    }

    /// Fails unless every token was consumed.
    fn end(&self) -> (r: Result<(), Error>)
        ensures
            match r {
                Ok(u) => self.position >= self.tokens@.len(),
                Err(e) => e matches Error::Parsing(_) && self.position < self.tokens@.len(),
            },
    {
        if self.position < self.tokens.len() {
            let shown = self.tokens[self.position].to_display_string();
            let mut msg = String::from_str("Unexpected token: `");
            msg.append(shown.as_str());
            msg.append("`");
            Err(Error::Parsing(msg))
        } else {
            Ok(())
        }
    }

    /// Parses a `select` application: the keyword, an optional `*`, and one
    /// or more filter primaries.
    fn select_expr(&mut self) -> (r: Result<Option<ast::Expr>, Error>)
        requires
            old(self).inv(),
            old(self).position < old(self).toks().len(),
            is_ident_named(old(self).toks()[old(self).position as int], "select"@),
        ensures
            final(self).inv(),
            final(self).tokens == old(self).tokens,
            final(self).ctx == old(self).ctx,
            old(self).position <= final(self).position,
            match r {
                Ok(Some(e)) => primary_parses(
                    old(self).toks(),
                    old(self).position as int,
                    final(self).position as int,
                    e.model(),
                ) && final(self).position > old(self).position,
                Ok(None) => false,
                Err(e2) => e2 matches Error::Parsing(_) || e2 matches Error::Lexing(_, _),
            },
            match spec_select(old(self).toks(), old(self).position as int) {
                Ok(oo) => oo matches Some((g, p)) && (r matches Ok(Some(e)) && e.model() == g
                    && final(self).position as int == p),
                Err(u) => r is Err,
            },
        decreases self.remaining(), 0int,
    {
        let ghost lo = self.position as int;
        let ghost gtoks = self.toks();
        let ghost entry_rem = self.remaining();
        self.bump();
        let many = self.peek_is_sym(SymbolKind::Asterisk);
        let multiplicity = if many {
            self.bump();
            ast::Multiplicity::Many
        } else {
            ast::Multiplicity::One
        };
        let ghost fstart = self.position as int;
        proof {
            lemma_sum_suffix_strict(gtoks, lo, self.position as int);
        }
        let mut filters: Vec<ast::Expr> = Vec::new();
        let ghost many_chosen = many;
        let mut done = false;
        while !done
            invariant
                self.inv(),
                done ==> spec_filters(gtoks, self.position as int) == Ok::<(Seq<GExpr>, int), ()>((
                    Seq::empty(),
                    self.position as int,
                )),
                self.tokens == old(self).tokens,
                self.ctx == old(self).ctx,
                gtoks == self.toks(),
                lo == old(self).position as int,
                fstart <= self.position as int <= gtoks.len(),
                lo < fstart,
                is_ident_named(gtoks[lo], "select"@),
                many_chosen ==> lo + 1 < gtoks.len() && is_sym(gtoks[lo + 1], SymbolKind::Asterisk)
                    && fstart == lo + 2,
                !many_chosen ==> fstart == lo + 1 && !(lo + 1 < gtoks.len() && is_sym(
                    gtoks[lo + 1],
                    SymbolKind::Asterisk,
                )),
                many_chosen == (multiplicity is Many),
                sum_text(gtoks.subrange(self.position as int, gtoks.len() as int)) < entry_rem,
                entry_rem == sum_text(gtoks.subrange(lo, gtoks.len() as int)),
                entry_rem == old(self).remaining(),
                filters@.len() > 0 ==> filters_parse(
                    gtoks,
                    fstart,
                    self.position as int,
                    crate::ast::exprs_model(filters@),
                ) && self.position as int > fstart,
                filters@.len() == 0 ==> self.position as int == fstart,
                spec_filters(gtoks, fstart) == filters_join(
                    crate::ast::exprs_model(filters@),
                    spec_filters(gtoks, self.position as int),
                ),
            decreases gtoks.len() - self.position + (if done {
                0int
            } else {
                1int
            }),
        {
            let ghost mid = self.position as int;
            proof {
                lemma_sum_text_nonneg(gtoks.subrange(self.position as int, gtoks.len() as int));
                assert(0 <= self.remaining() < entry_rem);
            }
            let step = self.maybe_primary();
            match step {
                Err(e) => {
                    proof {
                        assert(spec_filters(gtoks, mid) is Err);
                        assert(spec_filters(gtoks, fstart) is Err);
                        assert(spec_select(gtoks, lo) is Err);
                    }
                    return Err(e);
                },
                Ok(None) => {
                    proof {
                        assert(spec_filters(gtoks, mid) == Ok::<(Seq<GExpr>, int), ()>((
                            Seq::empty(),
                            mid,
                        )));
                    }
                    done = true;
                },
                Ok(Some(e)) => {
                    proof {
                        lemma_exprs_model_push(filters@, e);
                        if filters@.len() == 0 {
                            assert(crate::ast::exprs_model(filters@.push(e)) =~= seq![e.model()]);
                            assert(filters_parse(
                                gtoks,
                                fstart,
                                self.position as int,
                                seq![e.model()],
                            ));
                        } else {
                            lemma_filters_push(
                                gtoks,
                                fstart,
                                mid,
                                self.position as int,
                                crate::ast::exprs_model(filters@),
                                e.model(),
                            );
                        }
                        lemma_sum_suffix_monotone(gtoks, mid, self.position as int);
                        assert(crate::ast::exprs_model(filters@).push(e.model())
                            =~= crate::ast::exprs_model(filters@) + seq![e.model()]);
                        assert(crate::ast::exprs_model(filters@.push(e))
                            =~= crate::ast::exprs_model(filters@) + seq![e.kind.model()]);
                    }
                    proof {
                        assert(spec_primary(gtoks, mid) == Ok::<Option<(GExpr, int)>, ()>(Some((
                            e.model(),
                            self.position as int,
                        ))));
                        assert(spec_filters(gtoks, mid) == filters_join(
                            seq![e.model()],
                            spec_filters(gtoks, self.position as int),
                        ));
                        lemma_filters_join_assoc(
                            crate::ast::exprs_model(filters@),
                            seq![e.model()],
                            spec_filters(gtoks, self.position as int),
                        );
                    }
                    let ghost old_filters = filters@;
                    filters.push(e);
                    proof {
                        assert(filters@ == old_filters.push(e));
                        assert(crate::ast::exprs_model(filters@) =~= crate::ast::exprs_model(
                            old_filters,
                        ) + seq![e.model()]);
                        assert(crate::ast::exprs_model(filters@) == crate::ast::exprs_model(
                            old_filters,
                        ) + seq![e.kind.model()]);
                        if old_filters.len() > 0 {
                            assert(crate::ast::exprs_model(old_filters).push(e.model())
                                =~= crate::ast::exprs_model(old_filters) + seq![e.model()]);
                            assert(filters_parse(
                                gtoks,
                                fstart,
                                self.position as int,
                                crate::ast::exprs_model(old_filters).push(e.model()),
                            ));
                            assert(crate::ast::exprs_model(filters@)
                                == crate::ast::exprs_model(old_filters).push(e.model()));
                        }
                    }
                },
            }
        }
        proof {
            lemma_filters_join_nil(spec_filters(gtoks, self.position as int));
        }
        if filters.len() == 0 {
            proof {
                assert(spec_filters(gtoks, fstart) == filters_join(
                    Seq::<GExpr>::empty(),
                    spec_filters(gtoks, self.position as int),
                ));
                assert(spec_filters(gtoks, fstart) matches Ok(p) && p.0.len() == 0);
                assert(spec_select(gtoks, lo) is Err);
            }
            return Err(Error::Parsing(String::from_str("Expected expression")));
        }
        let e = ast::Expr {
            kind: ast::ExprKind::Select(
                ast::SelectExpr { multiplicity, filters, ctx: self.ctx.clone() },
            ),
            ctx: self.ctx.clone(),
        };
        proof {
            assert(primary_parses(gtoks, lo, self.position as int, e.model()));
            assert(spec_filters(gtoks, fstart) == Ok::<(Seq<GExpr>, int), ()>((
                crate::ast::exprs_model(filters@),
                self.position as int,
            )));
            assert(spec_select(gtoks, lo) == Ok::<Option<(GExpr, int)>, ()>(Some((
                GExpr::Select(many_chosen, crate::ast::exprs_model(filters@)),
                self.position as int,
            ))));
            assert(e.model() == GExpr::Select(many_chosen, crate::ast::exprs_model(filters@)));
        }
        Ok(Some(e))
    }

    /// Parses one primary expression, if one starts here.
    fn maybe_primary(&mut self) -> (r: Result<Option<ast::Expr>, Error>)
        requires
            old(self).inv(),
        ensures
            final(self).inv(),
            final(self).tokens == old(self).tokens,
            final(self).ctx == old(self).ctx,
            old(self).position <= final(self).position,
            match r {
                Ok(Some(e)) => primary_parses(
                    old(self).toks(),
                    old(self).position as int,
                    final(self).position as int,
                    e.model(),
                ) && final(self).position > old(self).position,
                Ok(None) => final(self).position == old(self).position,
                Err(e2) => e2 matches Error::Parsing(_) || e2 matches Error::Lexing(_, _),
            },
            match spec_primary(old(self).toks(), old(self).position as int) {
                Ok(Some((g, p))) => r matches Ok(Some(e)) && e.model() == g
                    && final(self).position as int == p,
                Ok(None) => r matches Ok(None),
                Err(u) => r is Err,
            },
        decreases self.remaining(), 1int,
    {
        let ghost lo = self.position as int;
        let ghost gtoks = self.toks();
        if self.position >= self.tokens.len() {
            proof {
                assert(spec_primary(gtoks, lo) == Ok::<Option<(GExpr, int)>, ()>(None));
            }
            return Ok(None);
        }
        if self.peek_is_sym(SymbolKind::Dollar) {
            self.bump();
            let e = ast::Expr {
                kind: ast::ExprKind::MetaVar(ast::MetaVarKind::Dollar),
                ctx: self.ctx.clone(),
            };
            proof {
                assert(primary_parses(gtoks, lo, self.position as int, e.model()));
                assert(spec_primary(gtoks, lo) == Ok::<Option<(GExpr, int)>, ()>(Some((
                    e.model(),
                    self.position as int,
                ))));
            }
            return Ok(Some(e));
        }
        if self.peek_is_ident() {
            let is_select = str_eq(self.tokens[self.position].span.text.as_str(), "select");
            if is_select {
                proof {
                    assert(spec_primary(gtoks, lo) == spec_select(gtoks, lo));
                }
                return self.select_expr();
            }
            let id = match self.identifier() {
                Ok(id) => id,
                Err(e) => {
                    return Err(e);
                },
            };
            proof {
                assert(gtok_shape_ok(gtoks[lo]));
                lemma_sum_suffix_strict(gtoks, lo, self.position as int);
                lemma_sum_text_nonneg(gtoks.subrange(self.position as int, gtoks.len() as int));
                assert(0 <= self.remaining() < old(self).remaining());
            }
            let ghost name = id.name@;
            let operand = match self.maybe_primary() {
                Ok(op) => op,
                Err(e) => {
                    proof {
                        assert(spec_primary(gtoks, lo + 1) is Err);
                        assert(spec_primary(gtoks, lo) is Err);
                    }
                    return Err(e);
                },
            };
            let lhs = match operand {
                Some(e) => e,
                None => ast::Expr { kind: ast::ExprKind::Void, ctx: self.ctx.clone() },
            };
            let e = ast::Expr {
                kind: ast::ExprKind::Apply(
                    ast::Apply {
                        ident: id,
                        lhs: Box::new(lhs),
                        args: Vec::new(),
                        ctx: self.ctx.clone(),
                    },
                ),
                ctx: self.ctx.clone(),
            };
            proof {
                assert(crate::ast::exprs_model(Seq::<ast::Expr>::empty()) =~= Seq::<
                    GExpr,
                >::empty());
                assert(primary_parses(gtoks, lo, self.position as int, e.model()));
                assert(e.model() == GExpr::Apply(name, Box::new(lhs.model()), Seq::empty()));
                assert(spec_primary(gtoks, lo) == Ok::<Option<(GExpr, int)>, ()>(Some((
                    e.model(),
                    self.position as int,
                ))));
            }
            return Ok(Some(e));
        }
        if self.peek_is_raw() {
            proof {
                assert(gtok_shape_ok(gtoks[lo]));
                assert(self.tokens@[lo].is_raw_tree());
            }
            let is_loc = starts_with_colon(self.tokens[self.position].inner());
            if is_loc {
                let loc_result = {
                    let inner = self.tokens[self.position].inner();
                    let lp = LocationParser::new(inner, self.ctx.clone());
                    lp.location()
                };
                let loc = match loc_result {
                    Ok(l) => l,
                    Err(e) => {
                        proof {
                            assert(spec_location(raw_trimmed(gtoks[lo])) is Err);
                            assert(spec_primary(gtoks, lo) is Err);
                        }
                        return Err(e);
                    },
                };
                self.bump();
                let e = ast::Expr { kind: ast::ExprKind::Location(loc), ctx: self.ctx.clone() };
                proof {
                    assert(primary_parses(gtoks, lo, self.position as int, e.model()));
                    assert(spec_primary(gtoks, lo) == Ok::<Option<(GExpr, int)>, ()>(Some((
                        e.model(),
                        self.position as int,
                    ))));
                }
                return Ok(Some(e));
            }
            let lexed = self.tokens[self.position].expect_raw_tree();
            let (tt, _sp) = match lexed {
                Ok(p) => p,
                Err(e) => {
                    proof {
                        assert(raw_lexes_to(gtoks[lo]) is Err);
                        assert(spec_primary(gtoks, lo) is Err);
                    }
                    return Err(e);
                },
            };
            self.bump();
            if tt.tokens.len() == 0 {
                let e = ast::Expr { kind: ast::ExprKind::Void, ctx: self.ctx.clone() };
                proof {
                    assert(primary_parses(gtoks, lo, self.position as int, e.model()));
                    assert(raw_lexes_to(gtoks[lo]) matches Ok(p) && p.0.len() == 0);
                    assert(spec_primary(gtoks, lo) == Ok::<Option<(GExpr, int)>, ()>(Some((
                        GExpr::Void,
                        lo + 1,
                    ))));
                }
                return Ok(Some(e));
            }
            proof {
                let t = gtoks[lo];
                crate::lexer::lemma_lex_shape_ok(raw_inner(t), t.start + 1, 0);
                crate::lexer::lemma_lex_round_trip(raw_inner(t), t.start + 1, 0);
                lemma_spans_sum(
                    models(tt.tokens@),
                    raw_inner(t),
                    t.start + 1,
                    0,
                    raw_lexes_to(t)->Ok_0.1,
                );
                lemma_sum_suffix_step(gtoks, lo);
                lemma_sum_text_nonneg(gtoks.subrange(lo + 1, gtoks.len() as int));
                assert(models(tt.tokens@).subrange(0, models(tt.tokens@).len() as int) =~= models(
                    tt.tokens@,
                ));
                assert(sum_text(models(tt.tokens@)) <= t.text.len() - 2);
                assert(t.text.len() <= old(self).remaining());
            }
            let mut nested = Parser { tokens: tt.tokens, position: 0, ctx: self.ctx.clone() };
            proof {
                lemma_sum_text_nonneg(models(tt.tokens@));
                assert(0 <= nested.remaining() < old(self).remaining());
            }
            let ghost ntoks = models(tt.tokens@);
            let first = match nested.maybe_expr() {
                Ok(Some(e)) => e,
                Ok(None) => {
                    proof {
                        assert(spec_expr(ntoks, 0) matches Ok(o) && o is None);
                        assert(spec_primary(gtoks, lo) is Err);
                    }
                    return Err(Error::Parsing(String::from_str("Expected expression")));
                },
                Err(e) => {
                    proof {
                        assert(spec_expr(ntoks, 0) is Err);
                        assert(spec_primary(gtoks, lo) is Err);
                    }
                    return Err(e);
                },
            };
            match nested.end() {
                Ok(u) => {},
                Err(e) => {
                    proof {
                        assert(spec_expr(ntoks, 0) matches Ok(o) && (o matches Some(pr)
                            && pr.1 != ntoks.len()));
                        assert(spec_primary(gtoks, lo) is Err);
                    }
                    return Err(e);
                },
            }
            proof {
                assert(primary_parses(gtoks, lo, self.position as int, first.model()));
                assert(spec_expr(ntoks, 0) matches Ok(o) && (o matches Some(pr) && pr.0
                    == first.model() && pr.1 == ntoks.len()));
                assert(spec_primary(gtoks, lo) == Ok::<Option<(GExpr, int)>, ()>(Some((
                    first.model(),
                    lo + 1,
                ))));
            }
            return Ok(Some(first));
        }
        proof {
            assert(spec_primary(gtoks, lo) == Ok::<Option<(GExpr, int)>, ()>(None));
        }
        Ok(None)
    }

    /// Parses one expression, if one starts here: a primary possibly
    /// extended by a `-> ident` chain.
    fn maybe_expr(&mut self) -> (r: Result<Option<ast::Expr>, Error>)
        requires
            old(self).inv(),
        ensures
            final(self).inv(),
            final(self).tokens == old(self).tokens,
            final(self).ctx == old(self).ctx,
            old(self).position <= final(self).position,
            match r {
                Ok(Some(e)) => expr_parses(
                    old(self).toks(),
                    old(self).position as int,
                    final(self).position as int,
                    e.model(),
                ) && final(self).position > old(self).position,
                Ok(None) => final(self).position == old(self).position,
                Err(e2) => e2 matches Error::Parsing(_) || e2 matches Error::Lexing(_, _),
            },
            match spec_expr(old(self).toks(), old(self).position as int) {
                Ok(Some((g, p))) => r matches Ok(Some(e)) && e.model() == g
                    && final(self).position as int == p,
                Ok(None) => r matches Ok(None),
                Err(u) => r is Err,
            },
        decreases self.remaining(), 2int,
    {
        let ghost lo = self.position as int;
        let ghost gtoks = self.toks();
        let first = match self.maybe_primary() {
            Ok(Some(e)) => e,
            Ok(None) => {
                proof {
                    assert(spec_expr(gtoks, lo) matches Ok(o) && o is None);
                }
                return Ok(None);
            },
            Err(e) => {
                proof {
                    assert(spec_expr(gtoks, lo) is Err);
                }
                return Err(e);
            },
        };
        let ghost p0 = self.position as int;
        let ghost first_model = first.model();
        proof {
            assert(spec_expr(gtoks, lo) == (match spec_chain(gtoks, p0, first_model) {
                Err(e2) => Err::<Option<(GExpr, int)>, ()>(()),
                Ok(p) => Ok(Some(p)),
            }));
        }
        let mut acc = first;
        while self.peek_is_sym(SymbolKind::ArrowRight)
            invariant
                self.inv(),
                self.tokens == old(self).tokens,
                self.ctx == old(self).ctx,
                gtoks == self.toks(),
                lo == old(self).position as int,
                lo < self.position as int <= gtoks.len(),
                expr_parses(gtoks, lo, self.position as int, acc.model()),
                spec_chain(gtoks, p0, first_model) == spec_chain(
                    gtoks,
                    self.position as int,
                    acc.model(),
                ),
                spec_expr(gtoks, lo) == (match spec_chain(gtoks, p0, first_model) {
                    Err(e2) => Err::<Option<(GExpr, int)>, ()>(()),
                    Ok(p) => Ok(Some(p)),
                }),
            decreases gtoks.len() - self.position,
        {
            let ghost m = self.position as int;
            let ghost prev_model = acc.model();
            self.bump();
            let id = match self.identifier() {
                Ok(id) => id,
                Err(e) => {
                    proof {
                        assert(spec_chain(gtoks, m, prev_model) is Err);
                    }
                    return Err(e);
                },
            };
            let prev = acc;
            acc = ast::Expr {
                kind: ast::ExprKind::Apply(
                    ast::Apply {
                        ident: id,
                        lhs: Box::new(prev),
                        args: Vec::new(),
                        ctx: self.ctx.clone(),
                    },
                ),
                ctx: self.ctx.clone(),
            };
            proof {
                assert(crate::ast::exprs_model(Seq::<ast::Expr>::empty()) =~= Seq::<
                    GExpr,
                >::empty());
                assert(acc.model() == GExpr::Apply(
                    id.name@,
                    Box::new(prev_model),
                    Seq::<GExpr>::empty(),
                ));
                assert(lo < m && m + 2 == self.position as int && self.position as int
                    <= gtoks.len() && expr_parses(gtoks, lo, m, prev_model) && is_sym(
                    gtoks[m],
                    SymbolKind::ArrowRight,
                ) && is_ident_named(gtoks[m + 1], id.name@));
                assert(exists|mm: int|
                    lo < mm && mm + 2 == self.position as int && self.position as int
                        <= gtoks.len() && expr_parses(gtoks, lo, mm, prev_model) && is_sym(
                        gtoks[mm],
                        SymbolKind::ArrowRight,
                    ) && is_ident_named(gtoks[mm + 1], id.name@));
                assert(expr_parses(gtoks, lo, self.position as int, acc.model()));
                assert(spec_chain(gtoks, m, prev_model) == spec_chain(
                    gtoks,
                    self.position as int,
                    acc.model(),
                ));
            }
        }
        proof {
            assert(spec_chain(gtoks, self.position as int, acc.model()) == Ok::<(GExpr, int), ()>((
                acc.model(),
                self.position as int,
            )));
            assert(spec_expr(gtoks, lo) == Ok::<Option<(GExpr, int)>, ()>(Some((
                acc.model(),
                self.position as int,
            ))));
        }
        Ok(Some(acc))
    }

    /// Parses one whole statement; everything must be consumed, apart from
    /// an optional trailing semicolon.
    pub fn parse_statement(&mut self) -> (r: Result<ast::Statement, Error>)
        requires
            old(self).inv(),
            old(self).position == 0,
        ensures
            final(self).inv(),
            match r {
                Ok(st) => stmt_parses(old(self).toks(), st.model()),
                Err(e2) => e2 matches Error::Parsing(_) || e2 matches Error::Lexing(_, _),
            },
            match spec_statement(old(self).toks()) {
                Ok(g) => r matches Ok(st) && st.model() == g,
                Err(u) => r is Err,
            },
    {
        let ghost gtoks = self.toks();
        if self.position >= self.tokens.len() {
            proof {
                assert(spec_statement(gtoks) is Err);
            }
            return Err(Error::Parsing(String::from_str("Expected statement, found ``")));
        }
        if self.peek_is_sym(SymbolKind::Caret) {
            self.bump();
            let id = match self.identifier() {
                Ok(id) => id,
                Err(e) => {
                    proof {
                        assert(spec_statement(gtoks) is Err);
                    }
                    return Err(e);
                },
            };
            let mk = if str_eq(id.name.as_str(), "help") {
                ast::MetaKind::Help
            } else if str_eq(id.name.as_str(), "exit") {
                ast::MetaKind::Exit
            } else {
                proof {
                    assert(spec_statement(gtoks) is Err);
                }
                let mut msg = String::from_str("Unknown meta-command: `");
                msg.append(id.name.as_str());
                msg.append("`");
                return Err(Error::Parsing(msg));
            };
            match self.maybe_semi() {
                Ok(u) => {},
                Err(e) => {
                    proof {
                        assert(gtoks.len() >= 3 && !is_sym(gtoks[2], SymbolKind::SemiColon));
                        assert(spec_statement(gtoks) is Err);
                    }
                    return Err(e);
                },
            }
            match self.end() {
                Ok(u) => {},
                Err(e) => {
                    proof {
                        assert(spec_statement(gtoks) is Err);
                    }
                    return Err(e);
                },
            }
            let st = ast::Statement { kind: ast::StatementKind::Meta(mk), ctx: self.ctx.clone() };
            proof {
                assert(stmt_parses(gtoks, st.model()));
                assert(spec_statement(gtoks) == Ok::<GStmt, ()>(GStmt::Meta(mk)));
            }
            return Ok(st);
        }
        let e = match self.maybe_expr() {
            Ok(Some(e)) => e,
            Ok(None) => {
                proof {
                    assert(spec_statement(gtoks) is Err);
                }
                let shown = self.tokens[self.position].to_display_string();
                let mut msg = String::from_str("Expected statement, found `");
                msg.append(shown.as_str());
                msg.append("`");
                return Err(Error::Parsing(msg));
            },
            Err(e2) => {
                proof {
                    assert(spec_statement(gtoks) is Err);
                }
                return Err(e2);
            },
        };
        let ghost m = self.position as int;
        match self.maybe_semi() {
            Ok(u) => {},
            Err(e2) => {
                proof {
                    assert(m < gtoks.len() && !is_sym(gtoks[m], SymbolKind::SemiColon));
                    assert(spec_statement(gtoks) is Err);
                }
                return Err(e2);
            },
        }
        match self.end() {
            Ok(u) => {},
            Err(e2) => {
                proof {
                    assert(spec_statement(gtoks) is Err);
                }
                return Err(e2);
            },
        }
        let st = ast::Statement {
            kind: ast::StatementKind::Expr(e.kind),
            ctx: self.ctx.clone(),
        };
        proof {
            assert(expr_parses(gtoks, 0, m, e.kind.model()));
            assert(m == gtoks.len() || (m + 1 == gtoks.len() && is_sym(
                gtoks[m],
                SymbolKind::SemiColon,
            )));
            assert(stmt_parses(gtoks, st.model()));
            assert(spec_statement(gtoks) == Ok::<GStmt, ()>(GStmt::Expr(e.kind.model())));
        }
        Ok(st)
    }
}

/// Whether a string starts with a colon.
fn starts_with_colon(s: &str) -> (r: bool)
    ensures
        r == is_location_text(s@),
{
    let n = s.unicode_len();
    n >= 1 && s.get_char(0) == ':'
}

proof fn lemma_exprs_model_push(es: Seq<ast::Expr>, e: ast::Expr)
    ensures
        crate::ast::exprs_model(es.push(e)) =~= crate::ast::exprs_model(es) + seq![e.kind.model()],
    decreases es.len(),
{
    if es.len() == 0 {
        assert(es.push(e).drop_first() =~= Seq::<ast::Expr>::empty());
        assert(es.push(e)[0] == e);
        assert(crate::ast::exprs_model(es) =~= Seq::<GExpr>::empty());
        assert(crate::ast::exprs_model(Seq::<ast::Expr>::empty()) =~= Seq::<GExpr>::empty());
        assert(crate::ast::exprs_model(es.push(e)) == seq![e.kind.model()]
            + crate::ast::exprs_model(es.push(e).drop_first()));
        assert(seq![e.kind.model()] + Seq::<GExpr>::empty() =~= seq![e.kind.model()]);
        assert(Seq::<GExpr>::empty() + seq![e.kind.model()] =~= seq![e.kind.model()]);
    } else {
        assert(es.push(e).drop_first() =~= es.drop_first().push(e));
        assert(es.push(e)[0] == es[0]);
        lemma_exprs_model_push(es.drop_first(), e);
        assert(crate::ast::exprs_model(es.push(e)) == seq![es[0].kind.model()]
            + crate::ast::exprs_model(es.drop_first().push(e)));
        assert(crate::ast::exprs_model(es) == seq![es[0].kind.model()] + crate::ast::exprs_model(
            es.drop_first(),
        ));
        assert(crate::ast::exprs_model(es.drop_first().push(e)) =~= crate::ast::exprs_model(
            es.drop_first(),
        ) + seq![e.kind.model()]);
        assert((seq![es[0].kind.model()] + crate::ast::exprs_model(es.drop_first()))
            + seq![e.kind.model()] =~= seq![es[0].kind.model()] + (crate::ast::exprs_model(
            es.drop_first(),
        ) + seq![e.kind.model()]));
    }
}

/// Parses one statement from an already-lexed token tree. On success the
/// statement's model is in the `stmt_parses` relation with the tree's
/// token models; `spec_statement` pins the outcome in both directions, so
/// parsing succeeds exactly when a statement parses.
pub fn parse_stmt(toks: Token, ctx: Context) -> (r: Result<ast::Statement, Error>)
    requires
        toks.kind matches TokenKind::Tree(tt) && tokens_wf(tt.tokens@) && gtoks_shape_ok(
            models(tt.tokens@),
        ),
    ensures
        match r {
            Ok(st) => (toks.kind matches TokenKind::Tree(tt) && stmt_parses(
                models(tt.tokens@),
                st.model(),
            )),
            Err(e2) => e2 matches Error::Parsing(_) || e2 matches Error::Lexing(_, _),
        },
        (toks.kind matches TokenKind::Tree(tt) ==> (match spec_statement(models(tt.tokens@)) {
            Ok(g) => r matches Ok(st) && st.model() == g,
            Err(u) => r is Err,
        })),
{
    let (tt, _span) = toks.expect_tree();
    let mut parser = Parser { tokens: tt.tokens, position: 0, ctx };
    parser.parse_statement()
}

fn loc_number_msg(seg: &String) -> (r: String)
    ensures
        r@ == msg_loc_number(seg@),
{
    let mut msg = String::from_str("Invalid location, expected number, found `");
    msg.append(seg.as_str());
    msg.append("`");
    msg
}

fn loc_unexpected_msg(seg: &String) -> (r: String)
    ensures
        r@ == msg_loc_unexpected(seg@),
{
    let mut msg = String::from_str("Invalid location, unexpected `");
    msg.append(seg.as_str());
    msg.append("`");
    msg
}

} // verus!

