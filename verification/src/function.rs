//! The function-dispatch framework: each named operation has a dispatch
//! key, an accepted argument-count shape, and a type rule that runs against
//! unevaluated syntax, before any evaluation.

use crate::data::Type;
use crate::interp::Error;
use crate::render::usize_string;
use vstd::prelude::*;

verus! {

/// The accepted argument-count shape of a named function.
#[derive(Clone, Copy, Eq, PartialEq, Structural, Debug)]
pub enum Arity {
    NoArgs,
    Exactly(usize),
    AtLeast(usize),
}

/// Whether an argument count satisfies an arity shape.
pub open spec fn admits(a: Arity, n: int) -> bool {
    match a {
        Arity::NoArgs => n == 0,
        Arity::Exactly(k) => n == k,
        Arity::AtLeast(k) => n >= k,
    }
}

impl Arity {
    /// How this shape is named in a message.
    pub fn display_string(&self) -> String {
        match self {
            Arity::NoArgs => String::from_str("0"),
            Arity::Exactly(n) => usize_string(*n),
            Arity::AtLeast(n) => {
                let mut m = usize_string(*n);
                m.append(" or more");
                m
            },
        }
    }

    /// Checks an argument count against this shape; the check runs before
    /// type-checking and evaluation.
    pub fn check(&self, args: &[crate::ast::Expr]) -> (r: Result<(), Error>)
        ensures
            r matches Ok(u) <==> admits(*self, args@.len() as int),
            r matches Err(e) ==> e matches Error::TypeError(_),
    {
        let n = args.len();
        let ok = match self {
            Arity::NoArgs => n == 0,
            Arity::Exactly(k) => n == *k,
            Arity::AtLeast(k) => n >= *k,
        };
        if ok {
            Ok(())
        } else {
            let mut m = String::from_str("Incorrect arguments, expected: ");
            let shape = self.display_string();
            m.append(shape.as_str());
            m.append(", found ");
            let count = usize_string(n);
            m.append(count.as_str());
            Err(Error::TypeError(m))
        }
    }
}

/// The closed set of named operations.
#[derive(Clone, Copy, Eq, PartialEq, Structural, Debug)]
pub enum FunctionKind {
    Show,
    Select,
    Pick,
    Idents,
    Def,
}

/// The dispatch key of each operation.
pub open spec fn spec_lookup(name: Seq<char>) -> Option<FunctionKind> {
    if name == "show"@ {
        Some(FunctionKind::Show)
    } else if name == "select"@ {
        Some(FunctionKind::Select)
    } else if name == "pick"@ {
        Some(FunctionKind::Pick)
    } else if name == "idents"@ {
        Some(FunctionKind::Idents)
    } else if name == "def"@ {
        Some(FunctionKind::Def)
    } else {
        None
    }
}

/// Looks an operation up by name; an unknown name is a hard error at the
/// call site.
pub fn lookup(name: &str) -> (r: Option<FunctionKind>)
    ensures
        r == spec_lookup(name@),
{
    if crate::chars::str_eq(name, "show") {
        Some(FunctionKind::Show)
    } else if crate::chars::str_eq(name, "select") {
        Some(FunctionKind::Select)
    } else if crate::chars::str_eq(name, "pick") {
        Some(FunctionKind::Pick)
    } else if crate::chars::str_eq(name, "idents") {
        Some(FunctionKind::Idents)
    } else if crate::chars::str_eq(name, "def") {
        Some(FunctionKind::Def)
    } else {
        None
    }
}

/// The arity of each operation; all the named operations take their
/// operand on the left and no further arguments.
pub open spec fn spec_arity_of(k: FunctionKind) -> Arity {
    Arity::NoArgs
}

pub fn arity_of(k: FunctionKind) -> (r: Arity)
    ensures
        r == spec_arity_of(k),
{
    Arity::NoArgs
}

/// What `show` yields for an operand type: always void.
pub open spec fn show_result(t: Type) -> Option<Type> {
    Some(Type::Void)
}

/// What `select` yields: forcing a query gives the carried type; an
/// already-resolved location passes through unchanged, deliberately wider
/// than "queries only", so that a selection can stand as the operand of a
/// location-taking operation; anything else is refused.
pub open spec fn select_result(t: Type) -> Option<Type> {
    match t {
        Type::Query(inner) => Some(*inner),
        _ => if t.spec_is_location() {
            Some(t)
        } else {
            None
        },
    }
}

/// What `pick` yields: the element type of the operand's set, kept under a
/// `Query` wrapper when the operand is deferred.
pub open spec fn pick_result(t: Type) -> Option<Type> {
    match t.spec_unquery() {
        Type::SetOf(inner) => if t.spec_is_query() {
            Some(Type::Query(inner))
        } else {
            Some(*inner)
        },
        _ => None,
    }
}

/// What `idents` yields: a deferred set of identifiers, for any
/// location-compatible operand.
pub open spec fn idents_result(t: Type) -> Option<Type> {
    if t.spec_is_location() {
        Some(Type::Query(Box::new(Type::SetOf(Box::new(Type::Identifier)))))
    } else {
        None
    }
}

/// What `def` yields: a deferred definition for an identifier operand, a
/// deferred set of definitions for a set of identifiers.
pub open spec fn def_result(t: Type) -> Option<Type> {
    match t.spec_unquery() {
        Type::Identifier => Some(Type::Query(Box::new(Type::Definition))),
        Type::SetOf(inner) => if *inner == Type::Identifier {
            Some(Type::Query(Box::new(Type::SetOf(Box::new(Type::Definition)))))
        } else {
            None
        },
        _ => None,
    }
}

/// The type rule of an operation, as a function of the operand's type.
pub open spec fn rule_result(k: FunctionKind, t: Type) -> Option<Type> {
    match k {
        FunctionKind::Show => show_result(t),
        FunctionKind::Select => select_result(t),
        FunctionKind::Pick => pick_result(t),
        FunctionKind::Idents => idents_result(t),
        FunctionKind::Def => def_result(t),
    }
}

/// A type-mismatch message naming the type that was found.
fn expected_msg(prefix: &str, found: &Type) -> (r: String)
    ensures
        r@ == prefix@ + found.spec_type_text(),
{
    let mut m = String::new();
    m.append(prefix);
    let shown = found.type_string();
    m.append(shown.as_str());
    m
}

/// Runs an operation's type rule on the operand type. The rule is a pure
/// function of the types: type-checking can never reach the backend.
pub fn rule_ty(k: FunctionKind, lhs_ty: &Type) -> (r: Result<Type, Error>)
    ensures
        match rule_result(k, *lhs_ty) {
            Some(t) => r matches Ok(rt) && rt == t,
            None => r matches Err(e) && e matches Error::TypeError(_),
        },
{
    match k {
        FunctionKind::Show => Ok(Type::Void),
        FunctionKind::Select => {
            match lhs_ty {
                Type::Query(inner) => Ok((**inner).clone()),
                _ => {
                    if lhs_ty.is_location() {
                        Ok(lhs_ty.clone())
                    } else {
                        Err(Error::TypeError(expected_msg("Expected query, found ", lhs_ty)))
                    }
                },
            }
        },
        FunctionKind::Pick => {
            let un = lhs_ty.unquery();
            match un {
                Type::SetOf(inner) => {
                    if lhs_ty.is_query() {
                        Ok(Type::Query(inner))
                    } else {
                        Ok(*inner)
                    }
                },
                _ => Err(Error::TypeError(expected_msg("Expected set, found ", lhs_ty))),
            }
        },
        FunctionKind::Idents => {
            if lhs_ty.is_location() {
                Ok(Type::Query(Box::new(Type::SetOf(Box::new(Type::Identifier)))))
            } else {
                Err(Error::TypeError(expected_msg("Expected location, found ", lhs_ty)))
            }
        },
        FunctionKind::Def => {
            let un = lhs_ty.unquery();
            match un {
                Type::Identifier => Ok(Type::Query(Box::new(Type::Definition))),
                Type::SetOf(inner) => {
                    if inner.type_eq(&Type::Identifier) {
                        Ok(Type::Query(Box::new(Type::SetOf(Box::new(Type::Definition)))))
                    } else {
                        Err(Error::TypeError(expected_msg("Expected identifier, found ", lhs_ty)))
                    }
                },
                _ => Err(Error::TypeError(expected_msg("Expected identifier, found ", lhs_ty))),
            }
        },
    }
}

} // verus!
