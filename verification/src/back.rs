//! The code-intelligence backend boundary: the capabilities a backend
//! offers, implemented elsewhere (a session's real index, or a stub in
//! tests).

use crate::data::{Definition, Identifier, Position, Range};
use vstd::prelude::*;

verus! {

/// What a backend can answer. A capability a given backend does not
/// support must fail with `NotImplemented`, never silently return empty.
pub trait Backend {
    /// The identifier at a position, if any.
    fn ident_at(&self, position: Position) -> Result<Option<Identifier>, Error>;

    /// The identifiers inside a range.
    fn idents_in(&self, range: Range) -> Result<Vec<Identifier>, Error>;

    /// The definition site of an identifier.
    fn definition(&self, id: Identifier) -> Result<Definition, Error>;
}

#[derive(Debug)]
pub enum Error {
    NotImplemented(&'static str),
    Back(String),
}

impl Error {
    /// The human-readable message for this failure.
    pub fn message(self) -> (r: String)
        ensures
            (self matches Error::Back(s) ==> r@ == s@),
    {
        match self {
            Error::NotImplemented(s) => {
                let mut m = String::from_str("Function not implemented by current backend: `");
                m.append(s);
                m.append("`");
                m
            },
            Error::Back(s) => s,
        }
    }
}

} // verus!
