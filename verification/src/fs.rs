//! The file-system boundary: the capabilities the core needs from a file
//! system, and the verified rule that turns a parsed location literal into
//! a concrete position or range.

use crate::ast;
use crate::data::{Locator, Path, Position, Range};
use vstd::prelude::*;

verus! {

/// A cached file: its key and its lines.
#[derive(Clone, Debug)]
pub struct File {
    pub path: Path,
    pub lines: Vec<String>,
}

/// How files are searched for.
#[derive(Clone, Eq, PartialEq, Debug)]
pub enum SearchPattern {
    Name(String),
}

impl SearchPattern {
    pub fn from_name(name: String) -> (r: SearchPattern)
        ensures
            r matches SearchPattern::Name(n) && n@ == name@,
    {
        SearchPattern::Name(name)
    }
}

#[derive(Debug)]
pub enum Error {
    BadLocation(String),
    InternalError(String),
    Io(String),
    Other(String),
}

impl Error {
    /// The human-readable message for this failure.
    pub fn message(self) -> String {
        match self {
            Error::BadLocation(s) => {
                let mut m = String::from_str("Invalid location: ");
                m.append(s.as_str());
                m
            },
            Error::InternalError(s) => {
                let mut m = String::from_str("Internal error: ");
                m.append(s.as_str());
                m
            },
            Error::Io(s) => s,
            Error::Other(s) => {
                let mut m = String::from_str("File error: ");
                m.append(s.as_str());
                m
            },
        }
    }
}

/// What the core asks of a file system. Implemented elsewhere: by a real
/// directory tree in the surrounding program, by a stub in tests.
pub trait FileSystem {
    /// The files matching a pattern: zero, one or many matches, where many
    /// stand for an ambiguous multi-file location.
    fn find(&self, pat: SearchPattern) -> Result<Vec<Path>, Error>;

    /// Resolves a parsed location literal against this file system.
    fn resolve_location(&self, loc: ast::Location) -> Result<Locator, Error>;

    /// The root-relative display string of a path.
    fn show_path(&self, path: Path) -> Result<String, Error>;

    /// The text of one line, if the file has that many lines.
    fn line_at(&self, path: Path, line: usize) -> Result<Option<String>, Error>;

    /// The source text a range covers.
    fn snippet(&self, range: &Range) -> Result<String, Error>;
}

/// What `locator_from` yields, as a function of the matches and the
/// literal's parts. Line and column are 1-indexed in the literal and
/// 0-indexed in the result; a line or column of 0 counts as absent.
pub open spec fn spec_locator_from(
    paths: Seq<Path>,
    line: Option<usize>,
    column: Option<usize>,
) -> Option<GLocatorFrom> {
    if paths.len() == 0 {
        None
    } else if paths.len() > 1 {
        if line is Some || column is Some {
            None
        } else {
            Some(GLocatorFrom::MultiFile)
        }
    } else {
        match line {
            Some(l) if l > 0 => match column {
                Some(c) if c > 0 => Some(GLocatorFrom::Position(l - 1, c - 1)),
                _ => Some(GLocatorFrom::Line(l - 1)),
            },
            _ => Some(GLocatorFrom::File),
        }
    }
}

/// The shape `locator_from` resolves to.
pub enum GLocatorFrom {
    File,
    MultiFile,
    Line(int),
    Position(int, int),
}

/// Turns the matches a file search returned, together with the literal's
/// line and column, into a locator:
///
/// - one match with line and column: a `Position` (both 0-indexed);
/// - one match with a line only: a line range;
/// - one match alone: a whole-file range;
/// - several matches without line or column: a multi-file range;
/// - several matches with a line or column, or no match at all: an error.
pub fn locator_from(
    name: &str,
    mut paths: Vec<Path>,
    line: Option<usize>,
    column: Option<usize>,
) -> (r: Result<Locator, Error>)
    ensures
        match spec_locator_from(paths@, line, column) {
            None => r matches Err(e) && e matches Error::BadLocation(_),
            Some(shape) => r matches Ok(loc) && (match shape {
                GLocatorFrom::File => loc == Locator::Range(Range::File(paths@[0])),
                GLocatorFrom::MultiFile => (loc matches Locator::Range(rg) && rg matches
                    Range::MultiFile(ps) && ps@ == paths@),
                GLocatorFrom::Line(l) => loc == Locator::Range(Range::Line(paths@[0], l as usize)),
                GLocatorFrom::Position(l, c) => loc == Locator::Position(
                    Position { file: paths@[0], line: l as usize, column: c as usize },
                ),
            }),
        },
{
    if paths.len() == 0 {
        let mut m = String::from_str("no files match `");
        m.append(name);
        m.append("`");
        return Err(Error::BadLocation(m));
    }
    if paths.len() > 1 {
        if line.is_some() || column.is_some() {
            return Err(Error::BadLocation(
                String::from_str("line or column specified for a multi-file range"),
            ));
        }
        return Ok(Locator::Range(Range::MultiFile(paths)));
    }
    let path = paths[0];
    match line {
        Some(l) if l > 0 => match column {
            Some(c) if c > 0 => Ok(
                Locator::Position(Position { file: path, line: l - 1, column: c - 1 }),
            ),
            _ => Ok(Locator::Range(Range::Line(path, l - 1))),
        },
        _ => Ok(Locator::Range(Range::File(path))),
    }
}

/// Resolves a location literal: looks the file name up and applies the
/// `locator_from` rule to whatever matches came back. A literal without a
/// file name is refused.
pub fn resolve_location<Fs: FileSystem>(loc: ast::Location, fs: &Fs) -> (r: Result<Locator, Error>)
    ensures
        loc.file is None ==> (r matches Err(e) && e matches Error::BadLocation(_)),
        (r matches Ok(l) ==> (l matches Locator::Position(p) ==> {
            &&& loc.file is Some
            &&& loc.line matches Some(ln) && ln > 0 && p.line == ln - 1
            &&& loc.column matches Some(c) && c > 0 && p.column == c - 1
        })),
        (r matches Ok(l) ==> (l matches Locator::Range(rg) ==> (rg matches Range::Line(q, ln0)
            ==> (loc.line matches Some(ln) && ln > 0 && ln0 == ln - 1 && !(loc.column matches Some(
            c,
        ) && c > 0))))),
        (r matches Ok(l) ==> (l matches Locator::Range(rg) ==> (rg matches Range::File(q) ==> !(
        loc.line matches Some(ln) && ln > 0)))),
        (r matches Ok(l) ==> (l matches Locator::Range(rg) ==> (rg matches Range::MultiFile(_)
            ==> loc.line is None && loc.column is None))),
{
    match loc.file {
        Some(f) => {
            let paths = match fs.find(SearchPattern::Name(f.clone())) {
                Ok(ps) => ps,
                Err(e) => {
                    return Err(e);
                },
            };
            locator_from(f.as_str(), paths, loc.line, loc.column)
        },
        None => Err(Error::BadLocation(String::from_str("unspecified location"))),
    }
}

} // verus!
