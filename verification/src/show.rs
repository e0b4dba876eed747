//! Display of values: each kind of value renders to a string, asking the
//! file system for paths and line contents where a location is shown.
//!
//! Sets follow the rule: fewer than 5 elements are listed in brackets, any
//! more are elided as `[...]*N`.

use crate::data::{values_model, GVal, Position, Range, Span, Value, ValueKind};
use crate::fs::FileSystem;
use crate::interp::Error;
use crate::render::{dec_nat, format_line, format_position, format_span_multi_line,
    format_span_one_line, spec_format_line, spec_format_position, spec_format_span_multi_line,
    spec_format_span_one_line, usize_string};
use vstd::prelude::*;

verus! {

impl Position {
    /// Renders this position with a caret under its column.
    pub fn show_str<Fs: FileSystem>(&self, fs: &Fs) -> (r: Result<String, Error>)
        ensures
            r matches Ok(s) ==> exists|ps: Seq<char>, lt: Option<Seq<char>>|
                s@ == spec_format_position(ps, self.line as int, self.column as int, lt),
            self.line == usize::MAX || self.column == usize::MAX ==> (r matches Err(e) && e matches
                Error::Other(_)),
    {
        if self.line == usize::MAX || self.column == usize::MAX {
            return Err(Error::Other(String::from_str("position out of range")));
        }
        let path_str = match fs.show_path(self.file) {
            Ok(p) => p,
            Err(e) => {
                return Err(Error::Other(e.message()));
            },
        };
        let line_text = match fs.line_at(self.file, self.line) {
            Ok(t) => t,
            Err(e) => {
                return Err(Error::Other(e.message()));
            },
        };
        let ghost gps = path_str@;
        let ghost glt: Option<Seq<char>> = match &line_text {
            Some(t) => Some(t@),
            None => None,
        };
        let out = format_position(path_str.as_str(), self.line, self.column, line_text);
        proof {
            assert(out@ == spec_format_position(gps, self.line as int, self.column as int, glt));
        }
        Ok(out)
    }
}

impl Span {
    /// Renders this span: carets under a one-line span, the bare
    /// line-and-column range otherwise.
    pub fn show_str<Fs: FileSystem>(&self, fs: &Fs) -> (r: Result<String, Error>)
        ensures
            (self.start_line == self.end_line ==> (r matches Ok(s) ==> exists|
                ps: Seq<char>,
                lt: Option<Seq<char>>,
            |
                s@ == spec_format_span_one_line(
                    ps,
                    self.start_line as int,
                    self.start_column as int,
                    self.end_column as int,
                    lt,
                ))),
            (self.start_line != self.end_line ==> (r matches Ok(s) ==> exists|ps: Seq<char>|
                s@ == spec_format_span_multi_line(
                    ps,
                    self.start_line as int,
                    self.start_column as int,
                    self.end_line as int,
                    self.end_column as int,
                ))),
            self.start_line == usize::MAX || self.start_column == usize::MAX || self.end_line
                == usize::MAX || self.end_column == usize::MAX ==> (r matches Err(e) && e matches
                Error::Other(_)),
            (self.start_line == self.end_line && self.end_column < self.start_column && !(
            self.start_line == usize::MAX || self.start_column == usize::MAX || self.end_line
                == usize::MAX || self.end_column == usize::MAX)) ==> (r is Err),
    {
        if self.start_line == usize::MAX || self.start_column == usize::MAX || self.end_line
            == usize::MAX || self.end_column == usize::MAX {
            return Err(Error::Other(String::from_str("span out of range")));
        }
        let path_str = match fs.show_path(self.file) {
            Ok(p) => p,
            Err(e) => {
                return Err(Error::Other(e.message()));
            },
        };
        let ghost gps = path_str@;
        if self.start_line == self.end_line {
            if self.end_column < self.start_column {
                return Err(Error::Other(String::from_str("span out of range")));
            }
            let line_text = match fs.line_at(self.file, self.start_line) {
                Ok(t) => t,
                Err(e) => {
                    return Err(Error::Other(e.message()));
                },
            };
            let ghost glt: Option<Seq<char>> = match &line_text {
                Some(t) => Some(t@),
                None => None,
            };
            let out = format_span_one_line(
                path_str.as_str(),
                self.start_line,
                self.start_column,
                self.end_column,
                line_text,
            );
            proof {
                assert(out@ == spec_format_span_one_line(
                    gps,
                    self.start_line as int,
                    self.start_column as int,
                    self.end_column as int,
                    glt,
                ));
            }
            Ok(out)
        } else {
            let out = format_span_multi_line(
                path_str.as_str(),
                self.start_line,
                self.start_column,
                self.end_line,
                self.end_column,
            );
            proof {
                assert(out@ == spec_format_span_multi_line(
                    gps,
                    self.start_line as int,
                    self.start_column as int,
                    self.end_line as int,
                    self.end_column as int,
                ));
            }
            Ok(out)
        }
    }
}

impl Range {
    /// Renders this range: a path, a bracketed list of up to four paths
    /// (more are elided as a count), a line with its text, or a span.
    pub fn show_str<Fs: FileSystem>(&self, fs: &Fs) -> (r: Result<String, Error>)
        ensures
            (self matches Range::MultiFile(ps) ==> (ps@.len() >= 5 ==> (r matches Ok(s) && s@
                == "["@ + dec_nat(ps@.len() as int) + " files]"@))),
            (self matches Range::Line(p, line) ==> (r matches Ok(s) ==> exists|
                ps: Seq<char>,
                lt: Option<Seq<char>>,
            | s@ == spec_format_line(ps, line as int, lt))),
            (self matches Range::Line(p, line) ==> (line == usize::MAX ==> (r matches Err(e)
                && e matches Error::Other(_)))),
    {
        match self {
            Range::File(path) => {
                match fs.show_path(*path) {
                    Ok(p) => Ok(p),
                    Err(e) => Err(Error::Other(e.message())),
                }
            },
            Range::MultiFile(paths) => {
                if paths.len() < 5 {
                    let mut out = String::from_str("[");
                    let mut i: usize = 0;
                    while i < paths.len()
                        invariant
                            0 <= i <= paths@.len(),
                            self matches Range::MultiFile(ps2) && ps2@ == paths@ && ps2@.len() < 5,
                        decreases paths@.len() - i,
                    {
                        if i > 0 {
                            out.append(", ");
                        }
                        let p = match fs.show_path(paths[i]) {
                            Ok(p) => p,
                            Err(e) => {
                                return Err(Error::Other(e.message()));
                            },
                        };
                        out.append(p.as_str());
                        i = i + 1;
                    }
                    out.append("]");
                    Ok(out)
                } else {
                    let mut out = String::from_str("[");
                    let n = usize_string(paths.len());
                    out.append(n.as_str());
                    out.append(" files]");
                    proof {
                        assert(out@ =~= "["@ + dec_nat(paths@.len() as int) + " files]"@);
                    }
                    Ok(out)
                }
            },
            Range::Line(path, line) => {
                if *line == usize::MAX {
                    return Err(Error::Other(String::from_str("line out of range")));
                }
                let path_str = match fs.show_path(*path) {
                    Ok(p) => p,
                    Err(e) => {
                        return Err(Error::Other(e.message()));
                    },
                };
                let line_text = match fs.line_at(*path, *line) {
                    Ok(t) => t,
                    Err(e) => {
                        return Err(Error::Other(e.message()));
                    },
                };
                let ghost gps = path_str@;
                let ghost glt: Option<Seq<char>> = match &line_text {
                    Some(t) => Some(t@),
                    None => None,
                };
                let out = format_line(path_str.as_str(), *line, line_text);
                proof {
                    assert(out@ == spec_format_line(gps, *line as int, glt));
                }
                Ok(out)
            },
            Range::Span(sp) => sp.show_str(fs),
        }
    }
}

/// Whether a value's contents render without consulting the file system.
pub open spec fn is_atom(k: GVal) -> bool {
    ||| k matches GVal::Void
    ||| k matches GVal::Number(_)
    ||| k matches GVal::Str(_)
    ||| k matches GVal::Identifier(_)
    ||| k matches GVal::Query(_)
}

/// How such a value renders.
pub open spec fn spec_atom_render(k: GVal) -> Seq<char> {
    match k {
        GVal::Void => "()"@,
        GVal::Number(n) => dec_nat(n),
        GVal::Str(t) => "\""@ + t + "\""@,
        GVal::Identifier(i) => "`"@ + i.name + "`"@,
        GVal::Query(_) => "<Query>"@,
        _ => Seq::empty(),
    }
}

pub open spec fn all_atoms(elems: Seq<GVal>) -> bool {
    forall|i: int| 0 <= i < elems.len() ==> is_atom(#[trigger] elems[i])
}

/// The elements' renderings, comma-separated.
pub open spec fn spec_atoms_joined(elems: Seq<GVal>) -> Seq<char>
    decreases elems.len(),
{
    if elems.len() == 0 {
        Seq::empty()
    } else if elems.len() == 1 {
        spec_atom_render(elems[0])
    } else {
        spec_atoms_joined(elems.drop_last()) + ", "@ + spec_atom_render(elems.last())
    }
}

proof fn lemma_atoms_joined_push(elems: Seq<GVal>, k: GVal)
    ensures
        elems.len() == 0 ==> spec_atoms_joined(elems.push(k)) == spec_atom_render(k),
        elems.len() > 0 ==> spec_atoms_joined(elems.push(k)) == spec_atoms_joined(elems) + ", "@
            + spec_atom_render(k),
{
    assert(elems.push(k).drop_last() =~= elems);
    assert(elems.push(k).last() == k);
}

impl Value {
    /// Renders this value. Void is `()`, numbers are decimal, a string is
    /// quoted, an identifier stands in backticks, a pending query shows as
    /// `<Query>`, and a set with fewer than 5 elements lists them while a
    /// larger one is elided as `[...]*N`.
    pub fn show_str<Fs: FileSystem>(&self, fs: &Fs) -> (r: Result<String, Error>)
        ensures
            (self.kind matches ValueKind::Void ==> (r matches Ok(s) && s@ == "()"@)),
            (self.kind matches ValueKind::Number(n) ==> (r matches Ok(s) && s@ == dec_nat(
                n as int,
            ))),
            (self.kind matches ValueKind::SetOf(vs) ==> (vs@.len() >= 5 ==> (r matches Ok(s) && s@
                == "[...]*"@ + dec_nat(vs@.len() as int)))),
            (self.kind matches ValueKind::SetOf(vs) ==> (vs@.len() == 0 ==> (r matches Ok(s) && s@
                == "()"@))),
            (self.kind matches ValueKind::SetOf(vs) ==> ((1 <= vs@.len() < 5 && all_atoms(
                values_model(vs@),
            )) ==> (r matches Ok(s) && s@ == "["@ + spec_atoms_joined(values_model(vs@)) + "]"@))),
            (self.kind matches ValueKind::String(t) ==> (r matches Ok(s) && s@ == "\""@ + t@
                + "\""@)),
            (self.kind matches ValueKind::Identifier(i) ==> (r matches Ok(s) && s@ == "`"@ + i.name@
                + "`"@)),
            (self.kind matches ValueKind::Query(_) ==> (r matches Ok(s) && s@ == "<Query>"@)),
        decreases self,
    {
        match &self.kind {
            ValueKind::Void => {
                let out = String::from_str("()");
                Ok(out)
            },
            ValueKind::Number(n) => Ok(usize_string(*n)),
            ValueKind::SetOf(vs) => {
                if vs.len() == 0 {
                    // an empty set holds nothing: it displays identically
                    // to the void value
                    let out = String::from_str("()");
                    Ok(out)
                } else if vs.len() < 5 {
                    let mut out = String::from_str("[");
                    let mut i: usize = 0;
                    while i < vs.len()
                        invariant
                            0 <= i <= vs@.len(),
                            self.kind matches ValueKind::SetOf(v2) && v2@ == vs@ && 1 <= v2@.len()
                                < 5,
                            all_atoms(values_model(vs@)) ==> out@ == "["@ + spec_atoms_joined(
                                values_model(vs@.subrange(0, i as int)),
                            ),
                        decreases vs@.len() - i,
                    {
                        if i > 0 {
                            out.append(", ");
                        }
                        let shown = match vs[i].show_str(fs) {
                            Ok(s) => s,
                            Err(e) => {
                                proof {
                                    if all_atoms(values_model(vs@)) {
                                        crate::data::lemma_values_model_index(vs@, i as int);
                                        assert(is_atom(vs@[i as int].kind.model()));
                                        assert(false);
                                    }
                                }
                                return Err(e);
                            },
                        };
                        proof {
                            if all_atoms(values_model(vs@)) {
                                crate::data::lemma_values_model_index(vs@, i as int);
                                assert(is_atom(vs@[i as int].kind.model()));
                                assert(shown@ == spec_atom_render(vs@[i as int].kind.model()));
                            }
                        }
                        out.append(shown.as_str());
                        proof {
                            if all_atoms(values_model(vs@)) {
                                let pre = values_model(vs@.subrange(0, i as int));
                                crate::data::lemma_values_model_push(
                                    vs@.subrange(0, i as int),
                                    vs@[i as int],
                                );
                                assert(vs@.subrange(0, i as int).push(vs@[i as int]) =~= vs@.subrange(
                                    0,
                                    i as int + 1,
                                ));
                                assert(values_model(vs@.subrange(0, i as int + 1)) =~= pre.push(
                                    vs@[i as int].kind.model(),
                                ));
                                crate::data::lemma_values_model_len(vs@.subrange(0, i as int));
                                lemma_atoms_joined_push(pre, vs@[i as int].kind.model());
                            }
                        }
                        i = i + 1;
                    }
                    out.append("]");
                    proof {
                        if all_atoms(values_model(vs@)) {
                            assert(vs@.subrange(0, vs@.len() as int) =~= vs@);
                        }
                    }
                    Ok(out)
                } else {
                    let mut out = String::from_str("[...]*");
                    let n = usize_string(vs.len());
                    out.append(n.as_str());
                    proof {
                        assert(out@ =~= "[...]*"@ + dec_nat(vs@.len() as int));
                    }
                    Ok(out)
                }
            },
            ValueKind::Position(p) => p.show_str(fs),
            ValueKind::Range(rg) => rg.show_str(fs),
            ValueKind::String(t) => {
                let mut out = String::from_str("\"");
                out.append(t.as_str());
                out.append("\"");
                proof {
                    assert(out@ =~= "\""@ + t@ + "\""@);
                }
                Ok(out)
            },
            ValueKind::Identifier(i) => {
                let mut out = String::from_str("`");
                out.append(i.name.as_str());
                out.append("`");
                proof {
                    assert(out@ =~= "`"@ + i.name@ + "`"@);
                }
                Ok(out)
            },
            ValueKind::Query(_) => Ok(String::from_str("<Query>")),
            ValueKind::Definition(d) => {
                let mut out = String::from_str("`");
                out.append(d.name.as_str());
                out.append("` at ");
                let span_str = match d.span.show_str(fs) {
                    Ok(s) => s,
                    Err(e) => {
                        return Err(e);
                    },
                };
                out.append(span_str.as_str());
                Ok(out)
            },
        }
    }
}

} // verus!
