use std::cell::{Cell, RefCell};

use clyde::ast::{
    Apply, Context, Expr, ExprKind, Identifier, MetaKind, MetaVarKind, Statement, StatementKind,
};
use clyde::back::{Backend, Error as BackError};
use clyde::data::{
    Definition, Identifier as DataIdent, MetaVar, Path, Position, Range, Span, Type, Value,
    ValueKind,
};
use clyde::fs::{Error as FsError, FileSystem, SearchPattern};
use clyde::interp::{lookup_numeric, Environment, Error, Interpreter};
use clyde::query::Query;

struct MockFs;

impl FileSystem for MockFs {
    fn find(&self, pat: SearchPattern) -> Result<Vec<Path>, FsError> {
        let SearchPattern::Name(s) = pat;
        match s.as_str() {
            "foo.rs" => Ok(vec![Path { key: 1 }]),
            "bar.rs" => Ok(vec![Path { key: 2 }]),
            "baz.rs" => Ok(vec![Path { key: 3 }]),
            other => Err(FsError::Other(other.to_owned())),
        }
    }

    fn resolve_location(&self, loc: clyde::ast::Location) -> Result<clyde::data::Locator, FsError> {
        clyde::fs::resolve_location(loc, self)
    }

    fn show_path(&self, path: Path) -> Result<String, FsError> {
        match path.key {
            1 => Ok("foo.rs".to_owned()),
            2 => Ok("bar.rs".to_owned()),
            3 => Ok("baz.rs".to_owned()),
            _ => Err(FsError::InternalError("unknown path".to_owned())),
        }
    }

    fn line_at(&self, path: Path, line: usize) -> Result<Option<String>, FsError> {
        if line < 20 {
            Ok(Some(format!("This is line {} of a file with number {}.", line, path.key)))
        } else {
            Ok(None)
        }
    }

    fn snippet(&self, range: &Range) -> Result<String, FsError> {
        Ok(format!("snippet at {:?}", range))
    }
}

/// A backend that must never be reached: a type error has to surface
/// before any backend call.
struct NoBackend;

impl Backend for NoBackend {
    fn ident_at(&self, _position: Position) -> Result<Option<DataIdent>, BackError> {
        panic!("the backend was called after a type-check failure");
    }

    fn idents_in(&self, _range: Range) -> Result<Vec<DataIdent>, BackError> {
        panic!("the backend was called after a type-check failure");
    }

    fn definition(&self, _id: DataIdent) -> Result<Definition, BackError> {
        panic!("the backend was called after a type-check failure");
    }
}

struct MockEnv {
    fs: MockFs,
    back: NoBackend,
}

impl MockEnv {
    fn new() -> MockEnv {
        MockEnv { fs: MockFs, back: NoBackend }
    }
}

impl Environment for MockEnv {
    type Fs = MockFs;
    type Back = NoBackend;

    fn exec_meta(&self, mk: MetaKind) -> Result<(), Error> {
        Err(Error::Other(
            match mk {
                MetaKind::Help => "help".to_owned(),
                MetaKind::Exit => "exit".to_owned(),
            },
        ))
    }

    fn show(&self, v: &Value) -> Result<(), Error> {
        Err(Error::Other(v.show_str(&self.fs).unwrap()))
    }

    fn lookup_var(&self, _: &MetaVar) -> Result<Value, Error> {
        Err(Error::Other("MockEnv does not support var lookup".to_owned()))
    }

    fn lookup_numeric_var(&self, _: isize) -> Result<Value, Error> {
        Err(Error::Other("MockEnv does not support numeric var lookup".to_owned()))
    }

    fn file_system(&self) -> &MockFs {
        &self.fs
    }

    fn backend(&self) -> &NoBackend {
        &self.back
    }
}

fn ident(s: &str) -> Identifier {
    Identifier::new(s.to_owned(), Context::default())
}

fn void_expr() -> Expr {
    Expr { kind: ExprKind::Void, ctx: Context::default() }
}

fn assert_other(e: Option<Error>, s: &str) {
    match e {
        Some(Error::Other(msg)) if msg == s => {}
        other => panic!("expected `{}`, found {:?}", s, other),
    }
}

#[test]
fn test_void() {
    let env = MockEnv::new();
    let mut interp = Interpreter::new(&env);
    match interp.interpret_expr(ExprKind::Void).unwrap().kind {
        ValueKind::Void => {}
        _ => panic!(),
    }
}

#[test]
fn test_var_lookup() {
    let env = MockEnv::new();
    let mut interp = Interpreter::new(&env);
    assert!(interp.lookup_var(&MetaVarKind::Named(ident("foo"))).is_err());

    interp.symbols.variables.push((MetaVar::new("foo"), Value::void()));
    assert!(interp.lookup_var(&MetaVarKind::Named(ident("foo"))).is_ok());
}

#[test]
fn test_meta() {
    let env = MockEnv::new();
    let mut interp = Interpreter::new(&env);
    let exit = Statement { kind: StatementKind::Meta(MetaKind::Exit), ctx: Context::default() };
    assert_other(interp.interpret_stmt(exit).error, "exit");
    let help = Statement { kind: StatementKind::Meta(MetaKind::Help), ctx: Context::default() };
    assert_other(interp.interpret_stmt(help).error, "help");
}

#[test]
fn test_show() {
    let env = MockEnv::new();
    let mut interp = Interpreter::new(&env);
    let show_void = Statement {
        kind: StatementKind::ApplyShorthand(Apply {
            ident: ident("show"),
            lhs: Box::new(void_expr()),
            args: vec![],
            ctx: Context::default(),
        }),
        ctx: Context::default(),
    };
    assert_other(interp.interpret_stmt(show_void).error, "()");
}

// Arity is checked before anything is evaluated: a zero-arity function
// given one argument is the observable type error, and the backend stub
// would panic if any call had been attempted.
#[test]
fn arity_is_checked_before_evaluation() {
    let env = MockEnv::new();
    let mut interp = Interpreter::new(&env);
    let apply = Apply {
        ident: ident("show"),
        lhs: Box::new(void_expr()),
        args: vec![void_expr()],
        ctx: Context::default(),
    };
    match interp.interpret_apply(apply) {
        Err(Error::TypeError(msg)) => {
            assert_eq!(msg, "Incorrect arguments, expected: 0, found 1");
        }
        other => panic!("expected an arity error, found {:?}", other),
    }
}

// Two-pass discipline: a type-rule failure must surface before evaluation,
// so the panicking backend stub is never reached.
#[test]
fn type_error_precedes_evaluation() {
    let env = MockEnv::new();
    let mut interp = Interpreter::new(&env);
    let apply = Apply {
        ident: ident("idents"),
        lhs: Box::new(void_expr()),
        args: vec![],
        ctx: Context::default(),
    };
    match interp.interpret_apply(apply) {
        Err(Error::TypeError(msg)) => assert_eq!(msg, "Expected location, found void"),
        other => panic!("expected a type error, found {:?}", other),
    }

    let unknown = Apply {
        ident: ident("frobnicate"),
        lhs: Box::new(void_expr()),
        args: vec![],
        ctx: Context::default(),
    };
    assert!(matches!(interp.interpret_apply(unknown), Err(Error::UnknownFunction(_))));
}

/// A backend that counts its calls.
struct CountingBackend {
    calls: Cell<usize>,
}

impl Backend for CountingBackend {
    fn ident_at(&self, _position: Position) -> Result<Option<DataIdent>, BackError> {
        self.calls.set(self.calls.get() + 1);
        Ok(None)
    }

    fn idents_in(&self, _range: Range) -> Result<Vec<DataIdent>, BackError> {
        self.calls.set(self.calls.get() + 1);
        Ok(vec![])
    }

    fn definition(&self, _id: DataIdent) -> Result<Definition, BackError> {
        self.calls.set(self.calls.get() + 1);
        Err(BackError::NotImplemented("definition"))
    }
}

// Evaluating the same `Ready` value twice returns values equal to the
// wrapped one both times, with zero backend calls.
#[test]
fn ready_eval_is_referentially_transparent() {
    let back = CountingBackend { calls: Cell::new(0) };
    let q = Query::ready(Value::number(42));
    let first = q.eval(&back).unwrap();
    let second = q.eval(&back).unwrap();
    assert_eq!(first, Value::number(42));
    assert_eq!(second, Value::number(42));
    assert_eq!(back.calls.get(), 0);
}

// Numeric history indexing: `$` and index -1 both resolve to the latest
// entry, and an out-of-range index reports the largest valid one.
#[test]
fn numeric_history_indexing() {
    let history = vec![
        Some(Value::number(10)),
        Some(Value::number(11)),
        Some(Value::number(12)),
    ];
    assert_eq!(lookup_numeric(&history, -1).unwrap(), Value::number(12));
    assert_eq!(lookup_numeric(&history, 0).unwrap(), Value::number(10));
    assert_eq!(lookup_numeric(&history, 2).unwrap(), Value::number(12));
    match lookup_numeric(&history, -4) {
        Err(Error::NumericVarNotFound(attempted, bound)) => {
            assert_eq!(attempted, -1);
            assert_eq!(bound, 2);
        }
        other => panic!("expected an out-of-range error, found {:?}", other),
    }
    match lookup_numeric(&history, 3) {
        Err(Error::NumericVarNotFound(_, bound)) => assert_eq!(bound, 2),
        other => panic!("expected an out-of-range error, found {:?}", other),
    }
    let with_gap = vec![Some(Value::number(1)), None];
    match lookup_numeric(&with_gap, 1) {
        Err(Error::VarNotFound(mv)) => assert_eq!(mv.name, "1"),
        other => panic!("expected a missing entry, found {:?}", other),
    }
}

/// An environment that records everything shown and answers identifier
/// queries from a fixed list.
struct SessionEnv {
    fs: MockFs,
    back: ListBackend,
    out: RefCell<Vec<String>>,
}

struct ListBackend {
    names: Vec<&'static str>,
}

impl Backend for ListBackend {
    fn ident_at(&self, position: Position) -> Result<Option<DataIdent>, BackError> {
        Ok(Some(DataIdent {
            id: 7,
            span: Span::new(position.file, position.line, position.column, position.line, position.column),
            name: self.names[0].to_owned(),
        }))
    }

    fn idents_in(&self, range: Range) -> Result<Vec<DataIdent>, BackError> {
        let file = match range {
            Range::File(p) => p,
            Range::Line(p, _) => p,
            Range::MultiFile(ps) => ps[0],
            Range::Span(sp) => sp.file,
        };
        Ok(self
            .names
            .iter()
            .enumerate()
            .map(|(i, n)| DataIdent {
                id: i as u64,
                span: Span::new(file, i, 0, i, 1),
                name: (*n).to_owned(),
            })
            .collect())
    }

    fn definition(&self, id: DataIdent) -> Result<Definition, BackError> {
        Ok(Definition { id: id.id, span: id.span, name: id.name })
    }
}

impl Environment for SessionEnv {
    type Fs = MockFs;
    type Back = ListBackend;

    fn exec_meta(&self, _mk: MetaKind) -> Result<(), Error> {
        Ok(())
    }

    fn show(&self, v: &Value) -> Result<(), Error> {
        self.out.borrow_mut().push(v.show_str(&self.fs).unwrap());
        Ok(())
    }

    fn lookup_var(&self, var: &MetaVar) -> Result<Value, Error> {
        Err(Error::VarNotFound(MetaVar::new(&var.name)))
    }

    fn lookup_numeric_var(&self, _id: isize) -> Result<Value, Error> {
        Err(Error::NumericVarNotFound(0, 0))
    }

    fn file_system(&self) -> &MockFs {
        &self.fs
    }

    fn backend(&self) -> &ListBackend {
        &self.back
    }
}

fn session(names: Vec<&'static str>) -> SessionEnv {
    SessionEnv { fs: MockFs, back: ListBackend { names }, out: RefCell::new(Vec::new()) }
}

// The end-to-end scenario: the statement selects a file location, asks for
// the identifiers there (a deferred query), and shows them; a large result
// set is elided as `[...]*N`, a small one is listed.
#[test]
fn end_to_end_select_idents_show() {
    let env = session(vec!["a", "b", "c", "d", "e", "f"]);
    let st = clyde::parse_stmt("select* (:foo.rs) -> idents -> show").unwrap();
    let mut interp = Interpreter::new(&env);
    let outcome = interp.interpret_stmt(st);
    assert!(outcome.error.is_none(), "{:?}", outcome.error);
    assert_eq!(env.out.borrow().as_slice(), &["[...]*6".to_owned()]);

    let env = session(vec!["a", "b"]);
    let st = clyde::parse_stmt("select* (:foo.rs) -> idents -> show").unwrap();
    let mut interp = Interpreter::new(&env);
    let outcome = interp.interpret_stmt(st);
    assert!(outcome.error.is_none(), "{:?}", outcome.error);
    assert_eq!(env.out.borrow().as_slice(), &["[`a`, `b`]".to_owned()]);
}

// `select` forces a deferred query: selecting the idents query yields the
// materialized set, whose display the statement then triggers.
#[test]
fn select_forces_query() {
    let env = session(vec!["x"]);
    let st = clyde::parse_stmt("select ((:foo.rs) -> idents)").unwrap();
    let mut interp = Interpreter::new(&env);
    let outcome = interp.interpret_stmt(st);
    assert!(outcome.error.is_none(), "{:?}", outcome.error);
    assert_eq!(env.out.borrow().as_slice(), &["[`x`]".to_owned()]);
}

// `pick` on a deferred set stays deferred; forcing it takes the first
// element. On a materialized empty set it is the distinct EmptySet error.
#[test]
fn pick_first_and_empty_set() {
    let back = ListBackend { names: vec!["first", "second"] };
    let idents = clyde::query::Idents::new(Query::ready(
        clyde::data::Locator::Range(Range::File(Path { key: 1 })).into_value(),
    ));
    let picked = clyde::query::Pick::new(idents, Type::Identifier);
    let v = picked.eval(&back).unwrap();
    match v.kind {
        ValueKind::Identifier(i) => assert_eq!(i.name, "first"),
        other => panic!("expected an identifier, found {:?}", other),
    }

    let env = MockEnv::new();
    let mut interp = Interpreter::new(&env);
    let apply = Apply {
        ident: ident("pick"),
        lhs: Box::new(Expr {
            kind: ExprKind::MetaVar(MetaVarKind::Named(ident("s"))),
            ctx: Context::default(),
        }),
        args: vec![],
        ctx: Context::default(),
    };
    interp.symbols.variables.push((
        MetaVar::new("s"),
        Value { ty: Type::SetOf(Box::new(Type::Number)), kind: ValueKind::SetOf(vec![]) },
    ));
    assert!(matches!(interp.interpret_apply(apply), Err(Error::EmptySet)));
}

// A single value behaves as a one-element set under the centralized
// coercion, and an empty set counts as void exactly like the void value.
#[test]
fn singleton_and_void_coercions() {
    let elems = clyde::data::set_elements(Value::number(7));
    assert_eq!(elems, vec![Value::number(7)]);

    let elems = clyde::data::set_elements(Value::void());
    assert!(elems.is_empty());

    let empty_set = Value {
        ty: Type::SetOf(Box::new(Type::Number)),
        kind: ValueKind::SetOf(vec![]),
    };
    assert!(empty_set.kind.is_void());
    assert!(Value::void().kind.is_void());
    assert!(!Value::number(0).kind.is_void());

    // displayed through a statement, an empty set is dropped exactly like
    // void: nothing reaches the environment
    let env = session(vec![]);
    let mut interp = Interpreter::new(&env);
    interp
        .symbols
        .variables
        .push((MetaVar::new("e"), Value {
            ty: Type::SetOf(Box::new(Type::Number)),
            kind: ValueKind::SetOf(vec![]),
        }));
    let st = Statement {
        kind: StatementKind::Expr(ExprKind::MetaVar(MetaVarKind::Named(ident("e")))),
        ctx: Context::default(),
    };
    let outcome = interp.interpret_stmt(st);
    assert!(outcome.error.is_none());
    assert!(env.out.borrow().is_empty());
}

// `def` defers to the backend's definition capability.
#[test]
fn def_resolves_definition() {
    let env = session(vec!["answer"]);
    let st = clyde::parse_stmt("select (((:foo.rs:1:1)) -> idents -> pick -> def)").unwrap();
    let mut interp = Interpreter::new(&env);
    let outcome = interp.interpret_stmt(st);
    assert!(outcome.error.is_none(), "{:?}", outcome.error);
    let shown = env.out.borrow();
    assert_eq!(shown.len(), 1);
    assert!(shown[0].starts_with("`answer` at "), "{}", shown[0]);
}

// A whole program runs statement by statement, and the session's symbol
// table survives it.
#[test]
fn interpret_program() {
    let env = session(vec!["a"]);
    let program = clyde::ast::Program {
        stmts: vec![
            clyde::parse_stmt("show ( : foo.rs )").unwrap(),
            clyde::parse_stmt("select* (:bar.rs) -> idents -> show").unwrap(),
        ],
        ctx: Context::default(),
    };
    let interp = Interpreter::new(&env);
    let symbols = interp.interpret(program).unwrap();
    assert!(symbols.variables.is_empty());
    assert_eq!(env.out.borrow().as_slice(), &["foo.rs".to_owned(), "[`a`]".to_owned()]);
}

// Picking from an already-computed set takes its first element, an empty
// one is the distinct EmptySet error, and neither touches the backend.
#[test]
fn pick_over_ready_set() {
    let back = CountingBackend { calls: Cell::new(0) };
    let set = Value {
        ty: Type::SetOf(Box::new(Type::Number)),
        kind: ValueKind::SetOf(vec![Value::number(10), Value::number(11)]),
    };
    let q = clyde::query::Pick::new(Query::ready(set), Type::Number);
    assert_eq!(q.eval(&back).unwrap(), Value::number(10));

    let empty = Value {
        ty: Type::SetOf(Box::new(Type::Number)),
        kind: ValueKind::SetOf(vec![]),
    };
    let q = clyde::query::Pick::new(Query::ready(empty), Type::Number);
    assert!(matches!(q.eval(&back), Err(Error::EmptySet)));
    assert_eq!(back.calls.get(), 0);
}

// Forcing idents over a value that is no location is the runtime type
// error, before any backend call.
#[test]
fn idents_runtime_type_error() {
    let back = CountingBackend { calls: Cell::new(0) };
    let q = clyde::query::Idents::new(Query::ready(Value::number(3)));
    assert!(matches!(q.eval(&back), Err(Error::TypeError(_))));
    assert_eq!(back.calls.get(), 0);
}

// A backend without a capability reports "not implemented" rather than
// silently answering empty.
#[test]
fn not_implemented_backend_error() {
    let back = CountingBackend { calls: Cell::new(0) };
    let q = clyde::query::Definition::new(
        Query::ready(Value {
            ty: Type::Identifier,
            kind: ValueKind::Identifier(DataIdent {
                id: 1,
                span: Span::new(Path { key: 1 }, 0, 0, 0, 1),
                name: "x".to_owned(),
            }),
        }),
        Type::Query(Box::new(Type::Definition)),
    );
    match q.eval(&back) {
        Err(Error::Other(msg)) => {
            assert_eq!(msg, "Function not implemented by current backend: `definition`");
        }
        other => panic!("expected a backend error, found {:?}", other),
    }
}
