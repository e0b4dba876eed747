//! The interpreter: walks a statement, type-checks each application before
//! evaluating it, resolves variables against the session's symbol table and
//! the environment, and hands results to the environment for display.

use crate::ast;
use crate::back::Backend;
use crate::data::{MetaVar, Type, Value, ValueKind};
use crate::fs::FileSystem;
use crate::function;
use crate::function::{admits, spec_arity_of, spec_lookup, FunctionKind};
use crate::query;
use vstd::prelude::*;

verus! {

/// A failure while type-checking or evaluating a statement.
#[derive(Debug)]
pub enum Error {
    Io(String),
    VarNotFound(MetaVar),
    /// The attempted history index and the largest valid one.
    NumericVarNotFound(isize, usize),
    UnknownFunction(String),
    TypeError(String),
    EmptySet,
    Other(String),
}

impl Error {
    /// The human-readable message for this failure.
    pub fn message(self) -> String {
        match self {
            Error::Io(s) => s,
            Error::VarNotFound(v) => {
                let mut m = String::from_str("Variable not found: `");
                m.append(v.name.as_str());
                m.append("`");
                m
            },
            Error::NumericVarNotFound(id, bound) => {
                let mut m = String::from_str("Numeric variable not found: `");
                let shown = crate::render::i64_string(id as i64);
                m.append(shown.as_str());
                m.append("`, the last valid index is ");
                let b = crate::render::usize_string(bound);
                m.append(b.as_str());
                m
            },
            Error::UnknownFunction(s) => {
                let mut m = String::from_str("Unknown function: `");
                m.append(s.as_str());
                m.append("`");
                m
            },
            Error::TypeError(s) => s,
            Error::EmptySet => String::from_str("Empty set"),
            Error::Other(s) => s,
        }
    }
}

/// The driver boundary: what the interpreter asks of its surroundings.
/// Implemented by the interactive shell, and by stubs in tests.
pub trait Environment {
    type Fs: FileSystem;

    type Back: Backend;

    /// Performs a meta-command of the shell.
    fn exec_meta(&self, mk: ast::MetaKind) -> Result<(), Error>;

    /// Displays a computed value.
    fn show(&self, v: &Value) -> Result<(), Error>;

    /// Resolves a named variable the session does not know yet.
    fn lookup_var(&self, var: &MetaVar) -> Result<Value, Error>;

    /// Resolves a history reference; a negative index counts from the end.
    fn lookup_numeric_var(&self, id: isize) -> Result<Value, Error>;

    fn file_system(&self) -> &Self::Fs;

    fn backend(&self) -> &Self::Back;
}

/// The session's named bindings and most recent result. Entries are never
/// evicted within a session, and names stay unique.
pub struct SymbolTable {
    pub variables: Vec<(MetaVar, Value)>,
    pub result: Value,
}

impl SymbolTable {
    /// Names are unique: the table is a map.
    pub open spec fn wf(&self) -> bool {
        forall|i: int, j: int|
            0 <= i < j < self.variables@.len() ==> (#[trigger] self.variables@[i]).0.name@ != (
            #[trigger] self.variables@[j]).0.name@
    }

    /// Whether a name is bound.
    pub open spec fn contains_name(&self, name: Seq<char>) -> bool {
        exists|i: int|
            0 <= i < self.variables@.len() && (#[trigger] self.variables@[i]).0.name@ == name
    }

    /// Looks a variable up; the returned value is a copy of the binding.
    pub fn lookup(&self, var: &MetaVar) -> (r: Option<Value>)
        ensures
            r is Some <==> self.contains_name(var.name@),
            r matches Some(v) ==> exists|i: int|
                0 <= i < self.variables@.len() && (#[trigger] self.variables@[i]).0.name@
                    == var.name@ && v.model() == self.variables@[i].1.model(),
    {
        let mut i: usize = 0;
        while i < self.variables.len()
            invariant
                0 <= i <= self.variables@.len(),
                forall|k: int|
                    0 <= k < i ==> (#[trigger] self.variables@[k]).0.name@ != var.name@,
            decreases self.variables@.len() - i,
        {
            if crate::chars::str_eq(self.variables[i].0.name.as_str(), var.name.as_str()) {
                let v = self.variables[i].1.clone();
                return Some(v);
            }
            i = i + 1;
        }
        None
    }

    /// Binds a new name; the name must not be bound yet.
    pub fn define(&mut self, var: MetaVar, value: Value)
        requires
            old(self).wf(),
            !old(self).contains_name(var.name@),
        ensures
            final(self).wf(),
            final(self).contains_name(var.name@),
            final(self).variables@.len() == old(self).variables@.len() + 1,
            final(self).result == old(self).result,
    {
        let ghost n = self.variables@.len();
        self.variables.push((var, value));
        proof {
            assert(self.variables@[n as int].0.name@ == var.name@);
        }
    }
}

impl Default for SymbolTable {
    fn default() -> (r: SymbolTable)
        ensures
            r.variables@.len() == 0,
            r.wf(),
            r.result.kind == ValueKind::Void,
    {
        SymbolTable { variables: Vec::new(), result: Value::void() }
    }
}

/// The history index an identifier resolves to: negative indices count
/// back from the latest entry.
pub open spec fn spec_adjusted_index(id: int, len: int) -> int {
    if id < 0 {
        len + id
    } else {
        id
    }
}

/// Resolves a history reference against the recorded results, exactly:
/// a negative index counts from the end; an out-of-range index reports the
/// attempted index and the largest valid one; an entry recorded as failed
/// is a missing variable named by its index.
pub fn lookup_numeric(prev: &Vec<Option<Value>>, id: isize) -> (r: Result<Value, Error>)
    ensures
        ({
            let idx = spec_adjusted_index(id as int, prev@.len() as int);
            if 0 <= idx < prev@.len() {
                match prev@[idx] {
                    Some(v) => r matches Ok(rv) && rv.model() == v.model(),
                    None => r matches Err(e) && (e matches Error::VarNotFound(mv) && mv.name@
                        == crate::render::dec_int(idx)),
                }
            } else {
                r matches Err(e) && (e matches Error::NumericVarNotFound(attempted, bound)
                    && attempted as int == idx && bound as int == (if prev@.len() > 0 {
                    prev@.len() - 1
                } else {
                    0int
                }))
            }
        }),
{
    let len = prev.len();
    let bound: usize = if len > 0 {
        len - 1
    } else {
        0
    };
    if id >= 0 {
        let idx = id as usize;
        if idx < len {
            match &prev[idx] {
                Some(v) => Ok(v.clone()),
                None => Err(Error::VarNotFound(MetaVar { name: crate::render::usize_string(idx) })),
            }
        } else {
            Err(Error::NumericVarNotFound(id, bound))
        }
    } else {
        let mag = ((-(id + 1)) as usize) + 1;
        if mag <= len {
            let idx = len - mag;
            match &prev[idx] {
                Some(v) => Ok(v.clone()),
                None => Err(Error::VarNotFound(MetaVar { name: crate::render::usize_string(idx) })),
            }
        } else {
            let diff = mag - len;
            let attempted = -((diff - 1) as isize) - 1;
            Err(Error::NumericVarNotFound(attempted, bound))
        }
    }
}

/// What interpreting one statement produced: the computed value if
/// evaluation succeeded (kept for the history even when only the display
/// failed), and the failure if any stage failed.
pub struct StmtOutcome {
    pub value: Option<Value>,
    pub error: Option<Error>,
}

pub struct Interpreter<'a, Env: Environment> {
    pub env: &'a Env,
    pub symbols: SymbolTable,
}

impl<'a, Env: Environment> Interpreter<'a, Env> {
    pub fn new(env: &'a Env) -> (r: Interpreter<'a, Env>)
        ensures
            r.symbols.wf(),
            r.symbols.variables@.len() == 0,
    {
        Interpreter { env, symbols: SymbolTable::default() }
    }

    /// Interprets a whole program, stopping at the first failure; the
    /// session's table comes back well-formed, and an empty program leaves
    /// it untouched.
    pub fn interpret(self, program: ast::Program) -> (r: Result<SymbolTable, Error>)
        requires
            self.symbols.wf(),
        ensures
            r matches Ok(t) ==> t.wf(),
            program.stmts@.len() == 0 ==> (r matches Ok(t) && t == self.symbols),
    {
        let mut this = self;
        let ghost n0 = program.stmts@.len();
        let mut stmts = program.stmts;
        if stmts.len() == 0 {
            return Ok(this.symbols);
        }
        while stmts.len() > 0
            invariant
                this.symbols.wf(),
                n0 > 0,
                n0 == program.stmts@.len(),
            decreases stmts@.len(),
        {
            let stmt = stmts.remove(0);
            let outcome = this.interpret_stmt(stmt);
            match outcome.error {
                Some(e) => {
                    return Err(e);
                },
                None => {},
            }
        }
        Ok(this.symbols)
    }

    /// Interprets one statement: parse output goes through type-checking
    /// and evaluation, and the result is displayed. A display failure is
    /// reported but leaves the computed value standing for the history.
    pub fn interpret_stmt(&mut self, stmt: ast::Statement) -> (r: StmtOutcome)
        requires
            old(self).symbols.wf(),
        ensures
            final(self).symbols.wf(),
            !(r.value is None && r.error is None),
            stmt.kind matches ast::StatementKind::Meta(_) ==> (r.error is None ==> (
            r.value matches Some(v) && v.ty == Type::Void && v.kind == ValueKind::Void)),
            (stmt.kind matches ast::StatementKind::Expr(e) ==> (e matches ast::ExprKind::Void
                ==> r.error is None && (r.value matches Some(v) && v.ty == Type::Void && v.kind
                == ValueKind::Void))),
            (stmt.kind matches ast::StatementKind::ApplyShorthand(a) ==> (spec_lookup(
                a.ident.name@,
            ) == Some(FunctionKind::Show) ==> (r.value matches Some(v) ==> v.ty == Type::Void
                && v.kind == ValueKind::Void))),
            (stmt.kind matches ast::StatementKind::Expr(e) ==> (e matches ast::ExprKind::Select(
                sel,
            ) ==> (sel.filters@.len() != 1 ==> r.value is None && (r.error matches Some(err)
                && err matches Error::TypeError(_))))),
            (stmt.kind matches ast::StatementKind::Expr(e) ==> (e matches ast::ExprKind::Apply(a)
                ==> (spec_lookup(a.ident.name@) is None ==> r.value is None && (r.error matches
                Some(err) && err matches Error::UnknownFunction(_))))),
    {
        match stmt.kind {
            ast::StatementKind::Expr(expr) => {
                match self.interpret_expr(expr) {
                    Ok(v) => {
                        match self.show_result(&v) {
                            Ok(u) => StmtOutcome { value: Some(v), error: None },
                            Err(e) => StmtOutcome { value: Some(v), error: Some(e) },
                        }
                    },
                    Err(e) => StmtOutcome { value: None, error: Some(e) },
                }
            },
            ast::StatementKind::ApplyShorthand(a) => {
                match self.interpret_apply(a) {
                    Ok(v) => {
                        match self.show_result(&v) {
                            Ok(u) => StmtOutcome { value: Some(v), error: None },
                            Err(e) => StmtOutcome { value: Some(v), error: Some(e) },
                        }
                    },
                    Err(e) => StmtOutcome { value: None, error: Some(e) },
                }
            },
            ast::StatementKind::Meta(mk) => {
                match self.env.exec_meta(mk) {
                    Ok(u) => StmtOutcome { value: Some(Value::void()), error: None },
                    Err(e) => StmtOutcome { value: None, error: Some(e) },
                }
            },
        }
    }

    /// Displays a value unless it holds nothing; a void result (or an empty
    /// set, which counts as void) is silently dropped.
    pub fn show_result(&self, value: &Value) -> (r: Result<(), Error>)
        ensures
            value.kind.spec_is_void() ==> r is Ok,
    {
        if !value.kind.is_void() {
            self.env.show(value)
        } else {
            Ok(())
        }
    }

    /// Evaluates an expression to a value.
    pub fn interpret_expr(&mut self, expr: ast::ExprKind) -> (r: Result<Value, Error>)
        requires
            old(self).symbols.wf(),
        ensures
            final(self).symbols.wf(),
            expr matches ast::ExprKind::Void ==> (r matches Ok(v) && v.ty == Type::Void && v.kind
                == ValueKind::Void),
            expr matches ast::ExprKind::Location(_) ==> (r matches Ok(v) ==> ((v.ty
                == Type::Position && v.kind matches ValueKind::Position(_)) || (v.ty == Type::Range
                && v.kind matches ValueKind::Range(_)))),
            (expr matches ast::ExprKind::Select(sel) ==> (sel.filters@.len() != 1 ==> (r matches
                Err(e) && e matches Error::TypeError(_)))),
            (expr matches ast::ExprKind::Apply(a) ==> (spec_lookup(a.ident.name@) is None ==> (
            r matches Err(e) && e matches Error::UnknownFunction(_)))),
        decreases expr, 0int,
    {
        match expr {
            ast::ExprKind::Void => Ok(Value::void()),
            ast::ExprKind::MetaVar(kind) => self.lookup_var(&kind),
            ast::ExprKind::Location(loc) => {
                match self.env.file_system().resolve_location(loc) {
                    Ok(locator) => Ok(locator.into_value()),
                    Err(e) => Err(Error::Other(e.message())),
                }
            },
            ast::ExprKind::Apply(a) => self.interpret_apply(a),
            ast::ExprKind::Select(sel) => {
                if sel.filters.len() != 1 {
                    return Err(Error::TypeError(
                        String::from_str("select takes one filter expression"),
                    ));
                }
                let mut filters = sel.filters;
                let first = filters.remove(0);
                let lhs_ty = match self.type_expr(&first.kind) {
                    Ok(t) => t,
                    Err(e) => {
                        return Err(e);
                    },
                };
                let node_ty = match function::rule_ty(FunctionKind::Select, &lhs_ty) {
                    Ok(t) => t,
                    Err(e) => {
                        return Err(e);
                    },
                };
                self.eval_fn(FunctionKind::Select, first, node_ty)
            },
            ast::ExprKind::Projection(p) => self.apply_parts(p.ident.name, *p.lhs),
        }
    }

    /// The type an expression will evaluate to, computed against the
    /// unevaluated syntax. Type-checking takes no backend: a type error can
    /// never trigger a backend call.
    pub fn type_expr(&mut self, expr: &ast::ExprKind) -> (r: Result<Type, Error>)
        requires
            old(self).symbols.wf(),
        ensures
            final(self).symbols.wf(),
            expr matches ast::ExprKind::Void ==> (r matches Ok(t) && t == Type::Void),
            expr matches ast::ExprKind::Location(_) ==> (r matches Ok(t) && t == Type::Location),
        decreases expr, 0int,
    {
        match expr {
            ast::ExprKind::Void => Ok(Type::Void),
            ast::ExprKind::MetaVar(kind) => {
                match self.lookup_var(kind) {
                    Ok(v) => Ok(v.ty),
                    Err(e) => Err(e),
                }
            },
            ast::ExprKind::Location(_) => Ok(Type::Location),
            ast::ExprKind::Apply(a) => self.type_apply(a),
            ast::ExprKind::Select(sel) => {
                if sel.filters.len() != 1 {
                    return Err(Error::TypeError(
                        String::from_str("select takes one filter expression"),
                    ));
                }
                let lhs_ty = match self.type_expr(&sel.filters[0].kind) {
                    Ok(t) => t,
                    Err(e) => {
                        return Err(e);
                    },
                };
                function::rule_ty(FunctionKind::Select, &lhs_ty)
            },
            ast::ExprKind::Projection(p) => self.type_apply_parts(&p.ident.name, &p.lhs.kind),
        }
    }

    /// Type-checks one application: the dispatch key must be known, the
    /// argument count must fit the arity, and the type rule must accept the
    /// operand's type.
    fn type_apply(&mut self, a: &ast::Apply) -> (r: Result<Type, Error>)
        requires
            old(self).symbols.wf(),
        ensures
            final(self).symbols.wf(),
            (spec_lookup(a.ident.name@) is None ==> (r matches Err(e) && e matches
                Error::UnknownFunction(_))),
            (spec_lookup(a.ident.name@) matches Some(k) ==> (!admits(
                spec_arity_of(k),
                a.args@.len() as int,
            ) ==> (r matches Err(e) && e matches Error::TypeError(_)))),
        decreases a, 5int,
    {
        let k = match function::lookup(a.ident.name.as_str()) {
            Some(k) => k,
            None => {
                return Err(Error::UnknownFunction(a.ident.name.clone()));
            },
        };
        match function::arity_of(k).check(a.args.as_slice()) {
            Ok(u) => {},
            Err(e) => {
                return Err(e);
            },
        }
        let lhs_ty = match self.type_expr(&a.lhs.kind) {
            Ok(t) => t,
            Err(e) => {
                return Err(e);
            },
        };
        function::rule_ty(k, &lhs_ty)
    }

    /// Like `type_apply` for an application given by its parts: a
    /// projection is an application without arguments.
    fn type_apply_parts(&mut self, name: &String, lhs: &ast::ExprKind) -> (r: Result<Type, Error>)
        requires
            old(self).symbols.wf(),
        ensures
            final(self).symbols.wf(),
        decreases lhs, 5int,
    {
        let k = match function::lookup(name.as_str()) {
            Some(k) => k,
            None => {
                return Err(Error::UnknownFunction(name.clone()));
            },
        };
        let lhs_ty = match self.type_expr(lhs) {
            Ok(t) => t,
            Err(e) => {
                return Err(e);
            },
        };
        function::rule_ty(k, &lhs_ty)
    }

    /// Interprets one application with the mandatory two-pass discipline:
    /// the arity is checked, then the type rule runs against the
    /// unevaluated operand, and only when both succeed is the operand
    /// evaluated and the operation performed. An arity mismatch is the
    /// observable type error; nothing is evaluated for it.
    pub fn interpret_apply(&mut self, apply: ast::Apply) -> (r: Result<Value, Error>)
        requires
            old(self).symbols.wf(),
        ensures
            final(self).symbols.wf(),
            (spec_lookup(apply.ident.name@) is None ==> (r matches Err(e) && e matches
                Error::UnknownFunction(_))),
            (spec_lookup(apply.ident.name@) matches Some(k) ==> (!admits(
                spec_arity_of(k),
                apply.args@.len() as int,
            ) ==> (r matches Err(e) && e matches Error::TypeError(_)))),
            spec_lookup(apply.ident.name@) == Some(FunctionKind::Show) ==> (r matches Ok(v)
                ==> v.ty == Type::Void && v.kind == ValueKind::Void),
            spec_lookup(apply.ident.name@) == Some(FunctionKind::Idents) ==> (r matches Ok(v)
                ==> v.ty == Type::Query(Box::new(Type::SetOf(Box::new(Type::Identifier)))) && (
            v.kind matches ValueKind::Query(q) && (q matches query::Query::Function(qf) && qf.def
                == query::QueryFun::Idents))),
            spec_lookup(apply.ident.name@) == Some(FunctionKind::Def) ==> (r matches Ok(v)
                ==> v.ty matches Type::Query(_) && (v.kind matches ValueKind::Query(q) && (
            q matches query::Query::Function(qf) && qf.def == query::QueryFun::Definition))),
            (spec_lookup(apply.ident.name@) matches Some(k) ==> ((admits(
                spec_arity_of(k),
                apply.args@.len() as int,
            ) && (apply.lhs.kind matches ast::ExprKind::Void) && function::rule_result(
                k,
                Type::Void,
            ) is None) ==> (r matches Err(e) && e matches Error::TypeError(_)))),
            (spec_lookup(apply.ident.name@) matches Some(k) ==> ((admits(
                spec_arity_of(k),
                apply.args@.len() as int,
            ) && (apply.lhs.kind matches ast::ExprKind::Location(_)) && function::rule_result(
                k,
                Type::Location,
            ) is None) ==> (r matches Err(e) && e matches Error::TypeError(_)))),
        decreases apply, 5int,
    {
        let k = match function::lookup(apply.ident.name.as_str()) {
            Some(k) => k,
            None => {
                return Err(Error::UnknownFunction(apply.ident.name.clone()));
            },
        };
        match function::arity_of(k).check(apply.args.as_slice()) {
            Ok(u) => {},
            Err(e) => {
                return Err(e);
            },
        }
        let lhs_ty = match self.type_expr(&apply.lhs.kind) {
            Ok(t) => t,
            Err(e) => {
                return Err(e);
            },
        };
        let node_ty = match function::rule_ty(k, &lhs_ty) {
            Ok(t) => t,
            Err(e) => {
                return Err(e);
            },
        };
        self.eval_fn(k, *apply.lhs, node_ty)
    }

    /// Interprets an application given by its parts: a projection is an
    /// application without arguments. The same two-pass discipline holds.
    fn apply_parts(&mut self, name: String, lhs: ast::Expr) -> (r: Result<Value, Error>)
        requires
            old(self).symbols.wf(),
        ensures
            final(self).symbols.wf(),
        decreases lhs, 5int,
    {
        let k = match function::lookup(name.as_str()) {
            Some(k) => k,
            None => {
                return Err(Error::UnknownFunction(name));
            },
        };
        let lhs_ty = match self.type_expr(&lhs.kind) {
            Ok(t) => t,
            Err(e) => {
                return Err(e);
            },
        };
        let node_ty = match function::rule_ty(k, &lhs_ty) {
            Ok(t) => t,
            Err(e) => {
                return Err(e);
            },
        };
        self.eval_fn(k, lhs, node_ty)
    }

    /// Performs one operation on its evaluated operand. Runs only after the
    /// type rule accepted the operand's static type.
    fn eval_fn(&mut self, k: FunctionKind, lhs: ast::Expr, node_ty: Type) -> (r: Result<
        Value,
        Error,
    >)
        requires
            old(self).symbols.wf(),
        ensures
            final(self).symbols.wf(),
            k == FunctionKind::Show ==> (r matches Ok(v) ==> v.ty == Type::Void && v.kind
                == ValueKind::Void),
            k == FunctionKind::Idents ==> (r matches Ok(v) ==> v.ty == Type::Query(
                Box::new(Type::SetOf(Box::new(Type::Identifier))),
            ) && (v.kind matches ValueKind::Query(q) && (q matches query::Query::Function(qf)
                && qf.def == query::QueryFun::Idents && qf.ty == Type::SetOf(
                Box::new(Type::Identifier),
            )))),
            k == FunctionKind::Def ==> (r matches Ok(v) ==> v.ty == node_ty && (v.kind matches
                ValueKind::Query(q) && (q matches query::Query::Function(qf) && qf.def
                == query::QueryFun::Definition && qf.ty == node_ty))),
        decreases lhs, 3int,
    {
        let v = match self.interpret_expr(lhs.kind) {
            Ok(v) => v,
            Err(e) => {
                return Err(e);
            },
        };
        match k {
            FunctionKind::Show => {
                match v.kind {
                    ValueKind::Query(q) => {
                        let forced = match q.eval(self.env.backend()) {
                            Ok(f) => f,
                            Err(e) => {
                                return Err(e);
                            },
                        };
                        match self.env.show(&forced) {
                            Ok(u) => {},
                            Err(e) => {
                                return Err(e);
                            },
                        }
                    },
                    kind => {
                        let v2 = Value { ty: v.ty, kind };
                        match self.env.show(&v2) {
                            Ok(u) => {},
                            Err(e) => {
                                return Err(e);
                            },
                        }
                    },
                }
                Ok(Value::void())
            },
            FunctionKind::Select => {
                match v.kind {
                    ValueKind::Query(q) => q.eval(self.env.backend()),
                    kind => {
                        let v2 = Value { ty: v.ty, kind };
                        if v2.ty.is_location() {
                            Ok(v2)
                        } else {
                            Err(Error::TypeError(String::from_str("Expected query")))
                        }
                    },
                }
            },
            FunctionKind::Pick => {
                let Value { ty, kind } = v;
                match kind {
                    ValueKind::Query(q) => {
                        let un = ty.unquery();
                        match un {
                            Type::SetOf(inner) => Ok(
                                Value {
                                    kind: ValueKind::Query(query::Pick::new(q, (*inner).clone())),
                                    ty: Type::Query(inner),
                                },
                            ),
                            _ => Err(Error::TypeError(String::from_str("Expected set"))),
                        }
                    },
                    ValueKind::SetOf(vs) => {
                        if vs.len() == 0 {
                            Err(Error::EmptySet)
                        } else {
                            Ok(vs[0].clone())
                        }
                    },
                    _ => Err(Error::TypeError(String::from_str("Expected set"))),
                }
            },
            FunctionKind::Idents => {
                Ok(
                    Value {
                        kind: ValueKind::Query(query::Idents::new(v.into_query())),
                        ty: Type::Query(Box::new(Type::SetOf(Box::new(Type::Identifier)))),
                    },
                )
            },
            FunctionKind::Def => {
                let q = query::Definition::new(v.into_query(), node_ty.clone());
                Ok(Value { kind: ValueKind::Query(q), ty: node_ty })
            },
        }
    }

    /// Resolves a variable reference: `$` and numeric indices go to the
    /// environment's history; a named variable is answered from the
    /// session's symbol table, falling back to the environment and caching
    /// the answer.
    pub fn lookup_var(&mut self, kind: &ast::MetaVarKind) -> (r: Result<Value, Error>)
        requires
            old(self).symbols.wf(),
        ensures
            final(self).symbols.wf(),
            (kind matches ast::MetaVarKind::Named(id) ==> (old(self).symbols.contains_name(
                id.name@,
            ) ==> (final(self).symbols == old(self).symbols && (r matches Ok(v) && exists|i: int|
                0 <= i < old(self).symbols.variables@.len() && (#[trigger] old(
                    self,
                ).symbols.variables@[i]).0.name@ == id.name@ && v.model() == old(
                    self,
                ).symbols.variables@[i].1.model())))),
    {
        match kind {
            ast::MetaVarKind::Dollar => self.env.lookup_numeric_var(-1),
            ast::MetaVarKind::Numeric(n) => self.env.lookup_numeric_var(*n),
            ast::MetaVarKind::Named(id) => {
                let var = MetaVar { name: id.name.clone() };
                match self.symbols.lookup(&var) {
                    Some(v) => Ok(v),
                    None => {
                        match self.env.lookup_var(&var) {
                            Ok(value) => {
                                let copy = value.clone();
                                self.symbols.define(var, copy);
                                Ok(value)
                            },
                            Err(e) => Err(e),
                        }
                    },
                }
            },
        }
    }
}

} // verus!
