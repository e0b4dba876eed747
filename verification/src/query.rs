//! The lazy query-evaluation engine: a tree of deferred backend calls,
//! built without touching the backend and forced on demand by `eval`.

use crate::back::Backend;
use crate::data::{GFun, GQuery, GVal, Type, Value, ValueKind};
use crate::interp::Error;
use vstd::prelude::*;

verus! {

/// The deferred operations a query node can stand for.
#[derive(Clone, Copy, Eq, PartialEq, Structural, Debug)]
pub enum QueryFun {
    Pick,
    Idents,
    Definition,
}

/// A deferred computation: either an already-computed value, or a call
/// node whose operand is itself deferred.
#[derive(Eq, PartialEq, Debug)]
pub enum Query {
    Ready(Box<Value>),
    Function(Fun),
}

/// A deferred call node: the operation, the declared result type, the
/// deferred operand, and already-evaluated arguments.
#[derive(Eq, PartialEq, Debug)]
pub struct Fun {
    pub def: QueryFun,
    pub ty: Type,
    pub lhs: Box<Query>,
    pub args: Vec<Value>,
}

impl Query {
    pub open spec fn model(&self) -> GQuery
        decreases self,
    {
        match self {
            Query::Ready(v) => GQuery::Ready(Box::new(v.model())),
            Query::Function(f) => GQuery::Function(
                GFun {
                    def: f.def,
                    ty: f.ty,
                    lhs: Box::new(f.lhs.model()),
                    args: crate::data::values_model(f.args@),
                },
            ),
        }
    }

    /// Wraps an already-computed value.
    pub fn ready(value: Value) -> (r: Query)
        ensures
            r matches Query::Ready(v) && *v == value,
    {
        Query::Ready(Box::new(value))
    }

    /// Forces this query against a backend. This is the only point at
    /// which backend calls occur.
    ///
    /// Forcing a `Ready` value returns a value with the same model, makes
    /// no backend call (it takes no backend capability apart), and can be
    /// repeated with the same outcome. For a call node, whatever the
    /// backend answered, a successful result has the shape the node's
    /// operation promises.
    pub fn eval<B: Backend>(&self, back: &B) -> (r: Result<Value, Error>)
        ensures
            (self matches Query::Ready(v) ==> (r matches Ok(rv) && rv.model() == v.model())),
            (self matches Query::Function(f) ==> ((f.def == QueryFun::Idents ==> (r matches Ok(rv)
                ==> rv.ty == f.ty && (rv.kind matches ValueKind::SetOf(vs) && forall|i: int|
                0 <= i < vs@.len() ==> (#[trigger] vs@[i]).ty == Type::Identifier
                    && vs@[i].kind matches ValueKind::Identifier(_)))) && (f.def
                == QueryFun::Definition ==> (r matches Ok(rv) ==> rv.ty == Type::Definition
                && rv.kind matches ValueKind::Definition(_))))),
            (self matches Query::Function(f) ==> (f.def == QueryFun::Pick ==> (*f.lhs matches
                Query::Ready(v) ==> (match v.kind.model() {
                GVal::SetOf(ms) => (ms.len() > 0 ==> (r matches Ok(rv) && rv.model().kind
                    == ms[0])) && (ms.len() == 0 ==> (r matches Err(e) && e matches
                    Error::EmptySet)),
                _ => r matches Err(e) && e matches Error::TypeError(_),
            })))),
            (self matches Query::Function(f) ==> (f.def == QueryFun::Definition ==> (*f.lhs matches
                Query::Ready(v) ==> (!(v.kind.model() matches GVal::Identifier(_)) ==> (r matches
                Err(e) && e matches Error::TypeError(_)))))),
            (self matches Query::Function(f) ==> (f.def == QueryFun::Idents ==> (*f.lhs matches
                Query::Ready(v) ==> ((!(v.kind.model() matches GVal::SetOf(_)) && !(
            v.kind.model() matches GVal::Void) && !(v.kind.model() matches GVal::Position(_)) && !(
            v.kind.model() matches GVal::Range(_))) ==> (r matches Err(e) && e matches
                Error::TypeError(_)))))),
        decreases self,
    {
        match self {
            Query::Ready(v) => Ok((**v).clone()),
            Query::Function(f) => {
                let lhs = match f.lhs.eval(back) {
                    Ok(v) => v,
                    Err(e) => {
                        return Err(e);
                    },
                };
                proof {
                    if let Query::Ready(v) = &*f.lhs {
                        assert(lhs.kind.model() == v.kind.model());
                        lemma_kind_from_model(&lhs.kind, &v.kind);
                    }
                }
                match f.def {
                    QueryFun::Pick => eval_pick(lhs),
                    QueryFun::Idents => eval_idents(lhs, &f.ty, back),
                    QueryFun::Definition => eval_definition(lhs, back),
                }
            },
        }
    }
}

/// Two value kinds with the same model have the same shape; the elements
/// of equal set models have pairwise equal models.
proof fn lemma_kind_from_model(a: &ValueKind, b: &ValueKind)
    requires
        a.model() == b.model(),
    ensures
        a matches ValueKind::SetOf(_) <==> b matches ValueKind::SetOf(_),
        a matches ValueKind::Identifier(_) <==> b matches ValueKind::Identifier(_),
        a matches ValueKind::Void <==> b matches ValueKind::Void,
        a matches ValueKind::Position(_) <==> b matches ValueKind::Position(_),
        a matches ValueKind::Range(_) <==> b matches ValueKind::Range(_),
        (a matches ValueKind::SetOf(xs) ==> (b matches ValueKind::SetOf(ys) ==> {
            &&& xs@.len() == ys@.len()
            &&& forall|i: int| 0 <= i < xs@.len() ==> (#[trigger] xs@[i]).kind.model()
                == ys@[i].kind.model()
        })),
{
    if let ValueKind::SetOf(xs) = a {
        if let ValueKind::SetOf(ys) = b {
            crate::data::lemma_values_model_len(xs@);
            crate::data::lemma_values_model_len(ys@);
            assert forall|i: int| 0 <= i < xs@.len() implies (#[trigger] xs@[i]).kind.model()
                == ys@[i].kind.model() by {
                crate::data::lemma_values_model_index(xs@, i);
                crate::data::lemma_values_model_index(ys@, i);
            }
        }
    }
}

/// Takes the first element of an already-computed set; an empty set is the
/// `EmptySet` error, any other shape a type error.
fn eval_pick(lhs: Value) -> (r: Result<Value, Error>)
    ensures
        (lhs.kind matches ValueKind::SetOf(vs) ==> ((vs@.len() > 0 ==> (r matches Ok(rv)
            && rv.model() == vs@[0].model())) && (vs@.len() == 0 ==> (r matches Err(e) && e matches
            Error::EmptySet)))),
        !(lhs.kind matches ValueKind::SetOf(_)) ==> (r matches Err(e) && e matches Error::TypeError(
            _,
        )),
{
    match lhs.kind {
        ValueKind::SetOf(vs) => {
            if vs.len() == 0 {
                Err(Error::EmptySet)
            } else {
                Ok(vs[0].clone())
            }
        },
        _ => Err(Error::TypeError(
            String::from_str("Unexpected runtime type, expected: set"),
        )),
    }
}

/// The identifiers at one location value: one at most for a position, all
/// of them for a range. Any other value is a runtime type error.
fn idents_of_locator<B: Backend>(v: Value, back: &B) -> (r: Result<
    Vec<crate::data::Identifier>,
    Error,
>)
    ensures
        !(v.kind matches ValueKind::Position(_)) && !(v.kind matches ValueKind::Range(_)) ==> (
        r matches Err(e) && e matches Error::TypeError(_)),
{
    match v.kind {
        ValueKind::Position(p) => {
            match back.ident_at(p) {
                Ok(Some(i)) => {
                    let mut out: Vec<crate::data::Identifier> = Vec::new();
                    out.push(i);
                    Ok(out)
                },
                Ok(None) => Ok(Vec::new()),
                Err(e) => Err(Error::Other(e.message())),
            }
        },
        ValueKind::Range(rg) => {
            match back.idents_in(rg) {
                Ok(out) => Ok(out),
                Err(e) => Err(Error::Other(e.message())),
            }
        },
        _ => Err(Error::TypeError(
            String::from_str("Unexpected runtime type, expected: location"),
        )),
    }
}

/// Wraps the backend's identifiers as identifier values, in order.
fn wrap_idents(ids: Vec<crate::data::Identifier>) -> (r: Vec<Value>)
    ensures
        r@.len() == ids@.len(),
        forall|i: int|
            0 <= i < ids@.len() ==> (#[trigger] r@[i]).ty == Type::Identifier && r@[i].kind
                == ValueKind::Identifier(ids@[i]),
{
    let mut r: Vec<Value> = Vec::new();
    let mut rest = ids;
    while rest.len() > 0
        invariant
            r@.len() + rest@.len() == ids@.len(),
            rest@ =~= ids@.subrange(r@.len() as int, ids@.len() as int),
            forall|i: int|
                0 <= i < r@.len() ==> (#[trigger] r@[i]).ty == Type::Identifier && r@[i].kind
                    == ValueKind::Identifier(ids@[i]),
        decreases rest@.len(),
    {
        let i = rest.remove(0);
        proof {
            assert(i == ids@[r@.len() as int]);
        }
        r.push(Value { ty: Type::Identifier, kind: ValueKind::Identifier(i) });
        proof {
            assert(rest@ =~= ids@.subrange(r@.len() as int, ids@.len() as int));
        }
    }
    r
}

/// Asks the backend for the identifiers at the operand's locations and
/// wraps them as a set value tagged with the node's declared type. An
/// operand that is neither a location nor a set of them is a runtime type
/// error.
fn eval_idents<B: Backend>(lhs: Value, ty: &Type, back: &B) -> (r: Result<Value, Error>)
    ensures
        r matches Ok(rv) ==> rv.ty == *ty && (rv.kind matches ValueKind::SetOf(vs) && forall|i: int|
            0 <= i < vs@.len() ==> (#[trigger] vs@[i]).ty == Type::Identifier
                && vs@[i].kind matches ValueKind::Identifier(_)),
        !(lhs.kind matches ValueKind::SetOf(_)) && !(lhs.kind matches ValueKind::Void) && !(
        lhs.kind matches ValueKind::Position(_)) && !(lhs.kind matches ValueKind::Range(_)) ==> (
        r matches Err(e) && e matches Error::TypeError(_)),
{
    let is_location_shaped = match &lhs.kind {
        ValueKind::SetOf(_) => true,
        ValueKind::Void => true,
        ValueKind::Position(_) => true,
        ValueKind::Range(_) => true,
        _ => false,
    };
    if !is_location_shaped {
        return Err(Error::TypeError(
            String::from_str("Unexpected runtime type, expected: location"),
        ));
    }
    // the operand behaves as a set of locations: a single location stands
    // for the one-element set
    let mut elems = crate::data::set_elements(lhs);
    let mut values: Vec<Value> = Vec::new();
    while elems.len() > 0
        invariant
            forall|i: int|
                0 <= i < values@.len() ==> (#[trigger] values@[i]).ty == Type::Identifier
                    && values@[i].kind matches ValueKind::Identifier(_),
            lhs.kind matches ValueKind::SetOf(_) || lhs.kind matches ValueKind::Void || lhs.kind
                matches ValueKind::Position(_) || lhs.kind matches ValueKind::Range(_),
        decreases elems@.len(),
    {
        let e = elems.remove(0);
        let idents = match idents_of_locator(e, back) {
            Ok(ids) => ids,
            Err(err) => {
                return Err(err);
            },
        };
        let mut wrapped = wrap_idents(idents);
        values.append(&mut wrapped);
    }
    Ok(Value { ty: ty.clone(), kind: ValueKind::SetOf(values) })
}

/// Asks the backend for the definition of an identifier and wraps it.
fn eval_definition<B: Backend>(lhs: Value, back: &B) -> (r: Result<Value, Error>)
    ensures
        r matches Ok(rv) ==> rv.ty == Type::Definition && rv.kind matches ValueKind::Definition(_),
        !(lhs.kind matches ValueKind::Identifier(_)) ==> (r matches Err(e) && e matches
            Error::TypeError(_)),
{
    match lhs.kind {
        ValueKind::Identifier(id) => {
            match back.definition(id) {
                Ok(d) => Ok(Value { ty: Type::Definition, kind: ValueKind::Definition(d) }),
                Err(e) => Err(Error::Other(e.message())),
            }
        },
        _ => Err(Error::TypeError(
            String::from_str("Unexpected runtime type, expected: identifier"),
        )),
    }
}

/// The deferred first-element operation.
pub struct Pick;

impl Pick {
    /// A query node that takes the first element of the set `lhs` will
    /// compute.
    pub fn new(lhs: Query, ty: Type) -> (q: Query)
        ensures
            q matches Query::Function(f) && f.def == QueryFun::Pick && f.ty == ty && *f.lhs == lhs
                && f.args@.len() == 0,
    {
        Query::Function(Fun { def: QueryFun::Pick, ty, lhs: Box::new(lhs), args: Vec::new() })
    }
}

/// The deferred identifiers-at-a-location operation.
pub struct Idents;

impl Idents {
    /// A query node deferring to the backend's "identifiers in/at".
    pub fn new(lhs: Query) -> (q: Query)
        ensures
            q matches Query::Function(f) && f.def == QueryFun::Idents && f.ty == Type::SetOf(
                Box::new(Type::Identifier),
            ) && *f.lhs == lhs && f.args@.len() == 0,
    {
        Query::Function(
            Fun {
                def: QueryFun::Idents,
                ty: Type::SetOf(Box::new(Type::Identifier)),
                lhs: Box::new(lhs),
                args: Vec::new(),
            },
        )
    }
}

/// The deferred definition-of-an-identifier operation.
pub struct Definition;

impl Definition {
    /// A query node deferring to the backend's "definition of".
    pub fn new(lhs: Query, ty: Type) -> (q: Query)
        ensures
            q matches Query::Function(f) && f.def == QueryFun::Definition && f.ty == ty && *f.lhs
                == lhs && f.args@.len() == 0,
    {
        Query::Function(
            Fun { def: QueryFun::Definition, ty, lhs: Box::new(lhs), args: Vec::new() },
        )
    }
}

impl Clone for Query {
    fn clone(&self) -> (r: Query)
        ensures
            r.model() == self.model(),
        decreases self,
    {
        match self {
            Query::Ready(v) => Query::Ready(Box::new((**v).clone())),
            Query::Function(f) => Query::Function(
                Fun {
                    def: f.def,
                    ty: f.ty.clone(),
                    lhs: Box::new((*f.lhs).clone()),
                    args: crate::data::clone_values(&f.args),
                },
            ),
        }
    }
}

} // verus!
