//! The abstract syntax tree built by the parser: statements, expressions,
//! applications, location literals and meta-variables.
//!
//! Each node carries a `Context` with the raw input it came from; the core
//! passes it through unexamined, so the mathematical model of every node
//! (`GStmt`, `GExpr`, ...) ignores it.

use vstd::prelude::*;

verus! {

/// Contextual information about the input a node was parsed from.
#[derive(Debug)]
pub struct Context {
    pub input: Option<String>,
}

impl Default for Context {
    fn default() -> (r: Context)
        ensures
            r.input is None,
    {
        Context { input: None }
    }
}

impl Clone for Context {
    fn clone(&self) -> (r: Context)
        ensures
            r == *self,
    {
        Context {
            input: match &self.input {
                Some(s) => Some(s.clone()),
                None => None,
            },
        }
    }
}

/// A marker for AST nodes.
pub trait Node {

}

#[derive(Debug)]
pub struct Program {
    pub stmts: Vec<Statement>,
    pub ctx: Context,
}

impl Node for Program {

}

#[derive(Debug)]
pub struct Statement {
    pub kind: StatementKind,
    pub ctx: Context,
}

impl Node for Statement {

}

#[derive(Debug)]
pub enum StatementKind {
    Expr(ExprKind),
    /// A bare leading `ident expr` term, read as an implicit function
    /// application such as `show $`.
    ApplyShorthand(Apply),
    Meta(MetaKind),
}

#[derive(Debug)]
pub struct Expr {
    pub kind: ExprKind,
    pub ctx: Context,
}

impl Node for Expr {

}

#[derive(Debug)]
pub enum ExprKind {
    MetaVar(MetaVarKind),
    /// `()`
    Void,
    /// `expr -> foo args`
    Apply(Apply),
    /// `(:...)`
    Location(Location),
    /// `select [*] filters`
    Select(SelectExpr),
    /// `expr.foo`
    Projection(Projection),
}

#[derive(Debug)]
pub struct Apply {
    pub ident: Identifier,
    pub lhs: Box<Expr>,
    pub args: Vec<Expr>,
    pub ctx: Context,
}

impl Node for Apply {

}

#[derive(Debug)]
pub struct Projection {
    pub ident: Identifier,
    pub lhs: Box<Expr>,
    pub ctx: Context,
}

impl Node for Projection {

}

impl Projection {
    /// A projection is sugar for an application without arguments.
    pub fn into_apply(self) -> (r: Apply)
        ensures
            r.ident == self.ident,
            r.lhs == self.lhs,
            r.args@.len() == 0,
    {
        Apply { ident: self.ident, lhs: self.lhs, args: Vec::new(), ctx: self.ctx }
    }
}

#[derive(Debug)]
pub struct SelectExpr {
    pub multiplicity: Multiplicity,
    pub filters: Vec<Expr>,
    pub ctx: Context,
}

#[derive(Clone, Copy, Eq, PartialEq, Structural, Debug)]
pub enum Multiplicity {
    One,
    Many,
}

/// A location literal. All parts are optional; `line` and `column` are kept
/// as written (1-indexed), and resolving them against the file system
/// shifts them to 0-indexed positions.
#[derive(Debug)]
pub struct Location {
    pub file: Option<String>,
    pub line: Option<usize>,
    pub column: Option<usize>,
    pub ctx: Context,
}

impl Node for Location {

}

impl Location {
    pub fn new(
        file: Option<String>,
        line: Option<usize>,
        column: Option<usize>,
        ctx: Context,
    ) -> (r: Location)
        ensures
            r.file == file,
            r.line == line,
            r.column == column,
    {
        Location { file, line, column, ctx }
    }
}

/// A reference to a prior or named value.
#[derive(Debug)]
pub enum MetaVarKind {
    /// `$`: the most recent result.
    Dollar,
    /// An absolute history index if non-negative, else relative to the
    /// latest entry.
    Numeric(isize),
    Named(Identifier),
}

/// A meta-command of the surrounding shell.
#[derive(Clone, Copy, Eq, PartialEq, Structural, Debug)]
pub enum MetaKind {
    Exit,
    Help,
}

#[derive(Debug)]
pub struct Identifier {
    pub name: String,
    pub ctx: Context,
}

impl Node for Identifier {

}

impl Identifier {
    pub fn new(name: String, ctx: Context) -> (r: Identifier)
        ensures
            r.name == name,
    {
        Identifier { name, ctx }
    }
}

/// Model of a location literal.
pub struct GLoc {
    pub file: Option<Seq<char>>,
    pub line: Option<int>,
    pub column: Option<int>,
}

impl Location {
    pub open spec fn model(&self) -> GLoc {
        GLoc {
            file: match self.file {
                Some(f) => Some(f@),
                None => None,
            },
            line: match self.line {
                Some(l) => Some(l as int),
                None => None,
            },
            column: match self.column {
                Some(c) => Some(c as int),
                None => None,
            },
        }
    }
}

/// Model of a meta-variable reference.
pub enum GMetaVar {
    Dollar,
    Numeric(int),
    Named(Seq<char>),
}

impl MetaVarKind {
    pub open spec fn model(&self) -> GMetaVar {
        match self {
            MetaVarKind::Dollar => GMetaVar::Dollar,
            MetaVarKind::Numeric(n) => GMetaVar::Numeric(*n as int),
            MetaVarKind::Named(id) => GMetaVar::Named(id.name@),
        }
    }
}

/// Model of an expression, with contexts stripped.
pub enum GExpr {
    MetaVar(GMetaVar),
    Void,
    Apply(Seq<char>, Box<GExpr>, Seq<GExpr>),
    Location(GLoc),
    Select(bool, Seq<GExpr>),
    Projection(Seq<char>, Box<GExpr>),
}

/// Model of a statement.
pub enum GStmt {
    Expr(GExpr),
    ApplyShorthand(Seq<char>, Box<GExpr>, Seq<GExpr>),
    Meta(MetaKind),
}

impl ExprKind {
    pub open spec fn model(&self) -> GExpr
        decreases self,
    {
        match self {
            ExprKind::MetaVar(mk) => GExpr::MetaVar(mk.model()),
            ExprKind::Void => GExpr::Void,
            ExprKind::Apply(a) => GExpr::Apply(
                a.ident.name@,
                Box::new(a.lhs.kind.model()),
                exprs_model(a.args@),
            ),
            ExprKind::Location(loc) => GExpr::Location(loc.model()),
            ExprKind::Select(sel) => GExpr::Select(
                sel.multiplicity is Many,
                exprs_model(sel.filters@),
            ),
            ExprKind::Projection(p) => GExpr::Projection(
                p.ident.name@,
                Box::new(p.lhs.kind.model()),
            ),
        }
    }
}

/// Models of a sequence of expressions.
pub open spec fn exprs_model(es: Seq<Expr>) -> Seq<GExpr>
    decreases es,
{
    if es.len() == 0 {
        Seq::empty()
    } else {
        seq![es[0].kind.model()] + exprs_model(es.drop_first())
    }
}

impl Expr {
    pub open spec fn model(&self) -> GExpr {
        self.kind.model()
    }
}

impl Statement {
    pub open spec fn model(&self) -> GStmt {
        match &self.kind {
            StatementKind::Expr(e) => GStmt::Expr(e.model()),
            StatementKind::ApplyShorthand(a) => GStmt::ApplyShorthand(
                a.ident.name@,
                Box::new(a.lhs.kind.model()),
                exprs_model(a.args@),
            ),
            StatementKind::Meta(mk) => GStmt::Meta(*mk),
        }
    }
}

} // verus!
