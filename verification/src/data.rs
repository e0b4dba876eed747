//! The value and type system: the closed type lattice with its subtyping
//! rules, eager values, and the data carried back from the backend.

use vstd::prelude::*;

verus! {

/// The name of a session variable.
#[derive(Clone, Eq, PartialEq, Hash, Debug)]
pub struct MetaVar {
    pub name: String,
}

impl MetaVar {
    pub fn new(name: &str) -> (r: MetaVar)
        ensures
            r.name@ == name@,
    {
        MetaVar { name: name.to_owned() }
    }
}

/// An opaque key standing for one file known to the file system.
#[derive(Clone, Copy, Eq, PartialEq, Structural, Debug, Hash)]
pub struct Path {
    pub key: u64,
}

/// A point in a file: 0-indexed line and column.
#[derive(Clone, Copy, Eq, PartialEq, Structural, Debug)]
pub struct Position {
    pub file: Path,
    pub line: usize,
    pub column: usize,
}

impl Position {
    pub fn new(file: Path, line: usize, column: usize) -> (r: Position)
        ensures
            r.file == file,
            r.line == line,
            r.column == column,
    {
        Position { file, line, column }
    }
}

/// A contiguous region of one file, 0-indexed and column-inclusive.
#[derive(Clone, Copy, Eq, PartialEq, Structural, Debug)]
pub struct Span {
    pub file: Path,
    pub start_line: usize,
    pub start_column: usize,
    pub end_line: usize,
    pub end_column: usize,
}

impl Span {
    pub fn new(
        file: Path,
        start_line: usize,
        start_column: usize,
        end_line: usize,
        end_column: usize,
    ) -> (r: Span)
        ensures
            r == (Span { file, start_line, start_column, end_line, end_column }),
    {
        Span { file, start_line, start_column, end_line, end_column }
    }
}

/// A range of source text: a whole file, several files, one line, or a
/// span within a file.
#[derive(Clone, Eq, PartialEq, Debug)]
pub enum Range {
    File(Path),
    MultiFile(Vec<Path>),
    Line(Path, usize),
    Span(Span),
}

/// Model of a range: the file list of a multi-file range as a sequence.
pub enum GRange {
    File(Path),
    MultiFile(Seq<Path>),
    Line(Path, int),
    Span(Span),
}

impl Range {
    pub open spec fn model(&self) -> GRange {
        match self {
            Range::File(p) => GRange::File(*p),
            Range::MultiFile(ps) => GRange::MultiFile(ps@),
            Range::Line(p, l) => GRange::Line(*p, *l as int),
            Range::Span(sp) => GRange::Span(*sp),
        }
    }
}

/// The resolved result of a location literal.
#[derive(Clone, Eq, PartialEq, Debug)]
pub enum Locator {
    Position(Position),
    Range(Range),
}

pub enum GLocator {
    Position(Position),
    Range(GRange),
}

impl Locator {
    pub open spec fn model(&self) -> GLocator {
        match self {
            Locator::Position(p) => GLocator::Position(*p),
            Locator::Range(r) => GLocator::Range(r.model()),
        }
    }

    /// An eager value carrying this locator, tagged with the matching type.
    pub fn into_value(self) -> (r: Value)
        ensures
            (self matches Locator::Position(p) ==> r.ty == Type::Position && r.kind
                == ValueKind::Position(p)),
            (self matches Locator::Range(rg) ==> r.ty == Type::Range && r.kind
                == ValueKind::Range(rg)),
    {
        match self {
            Locator::Position(p) => Value { ty: Type::Position, kind: ValueKind::Position(p) },
            Locator::Range(rg) => Value { ty: Type::Range, kind: ValueKind::Range(rg) },
        }
    }
}

/// An identifier found in the source, as reported by the backend.
#[derive(Clone, Eq, PartialEq, Debug)]
pub struct Identifier {
    pub id: u64,
    pub span: Span,
    pub name: String,
}

pub struct GIdent {
    pub id: u64,
    pub span: Span,
    pub name: Seq<char>,
}

impl Identifier {
    pub open spec fn model(&self) -> GIdent {
        GIdent { id: self.id, span: self.span, name: self.name@ }
    }
}

/// The definition site of an identifier, as reported by the backend.
#[derive(Clone, Eq, PartialEq, Debug)]
pub struct Definition {
    pub id: u64,
    pub span: Span,
    pub name: String,
}

pub struct GDef {
    pub id: u64,
    pub span: Span,
    pub name: Seq<char>,
}

impl Definition {
    pub open spec fn model(&self) -> GDef {
        GDef { id: self.id, span: self.span, name: self.name@ }
    }
}

// Subtype rules, checked statically before evaluation:
//
//   T <= Set(T)          a bare value stands for a singleton set
//   Void == Set(T)       when the set is empty
//   T <= Query(T)        a ready value is a trivially-ready query
//   Position <= Location
//   Range <= Location
//
// Coercions, applied at evaluation time:
//
//   Set(T) >> T          take an element
//   Query(T) >> T        force evaluation
/// The closed type lattice.
#[derive(Eq, PartialEq, Debug)]
pub enum Type {
    Void,
    Query(Box<Type>),
    Number,
    SetOf(Box<Type>),
    Identifier,
    Location,
    Position,
    Range,
    String,
    Definition,
}

impl Clone for Type {
    fn clone(&self) -> (r: Type)
        ensures
            r == *self,
        decreases self,
    {
        match self {
            Type::Void => Type::Void,
            Type::Query(t) => Type::Query(Box::new((**t).clone())),
            Type::Number => Type::Number,
            Type::SetOf(t) => Type::SetOf(Box::new((**t).clone())),
            Type::Identifier => Type::Identifier,
            Type::Location => Type::Location,
            Type::Position => Type::Position,
            Type::Range => Type::Range,
            Type::String => Type::String,
            Type::Definition => Type::Definition,
        }
    }
}

impl Type {
    /// Structural equality, usable from verified code.
    pub fn type_eq(&self, other: &Type) -> (r: bool)
        ensures
            r == (self == other),
        decreases self,
    {
        match (self, other) {
            (Type::Void, Type::Void) => true,
            (Type::Query(a), Type::Query(b)) => a.type_eq(b),
            (Type::Number, Type::Number) => true,
            (Type::SetOf(a), Type::SetOf(b)) => a.type_eq(b),
            (Type::Identifier, Type::Identifier) => true,
            (Type::Location, Type::Location) => true,
            (Type::Position, Type::Position) => true,
            (Type::Range, Type::Range) => true,
            (Type::String, Type::String) => true,
            (Type::Definition, Type::Definition) => true,
            _ => false,
        }
    }

    /// How this type is written in a message.
    pub open spec fn spec_type_text(&self) -> Seq<char>
        decreases self,
    {
        match self {
            Type::Void => "void"@,
            Type::Query(t) => "query<"@ + t.spec_type_text() + ">"@,
            Type::Number => "number"@,
            Type::SetOf(t) => "set<"@ + t.spec_type_text() + ">"@,
            Type::Identifier => "identifier"@,
            Type::Location => "location"@,
            Type::Position => "position"@,
            Type::Range => "range"@,
            Type::String => "string"@,
            Type::Definition => "def"@,
        }
    }

    pub fn type_string(&self) -> (r: String)
        ensures
            r@ == self.spec_type_text(),
        decreases self,
    {
        match self {
            Type::Void => String::from_str("void"),
            Type::Query(t) => {
                let mut m = String::from_str("query<");
                let inner = t.type_string();
                m.append(inner.as_str());
                m.append(">");
                proof {
                    assert(m@ =~= self.spec_type_text());
                }
                m
            },
            Type::Number => String::from_str("number"),
            Type::SetOf(t) => {
                let mut m = String::from_str("set<");
                let inner = t.type_string();
                m.append(inner.as_str());
                m.append(">");
                proof {
                    assert(m@ =~= self.spec_type_text());
                }
                m
            },
            Type::Identifier => String::from_str("identifier"),
            Type::Location => String::from_str("location"),
            Type::Position => String::from_str("position"),
            Type::Range => String::from_str("range"),
            Type::String => String::from_str("string"),
            Type::Definition => String::from_str("def"),
        }
    }

    pub open spec fn spec_is_query(&self) -> bool {
        self matches Type::Query(_)
    }

    pub fn is_query(&self) -> (r: bool)
        ensures
            r == self.spec_is_query(),
    {
        match self {
            Type::Query(_) => true,
            _ => false,
        }
    }

    /// Whether values of this type can stand where a location is expected:
    /// a location, position or range, also inside any `Query`/`Set` nest.
    pub open spec fn spec_is_location(&self) -> bool
        decreases self,
    {
        match self {
            Type::Location => true,
            Type::Position => true,
            Type::Range => true,
            Type::Query(t) => t.spec_is_location(),
            Type::SetOf(t) => t.spec_is_location(),
            _ => false,
        }
    }

    pub fn is_location(&self) -> (r: bool)
        ensures
            r == self.spec_is_location(),
        decreases self,
    {
        match self {
            Type::Location => true,
            Type::Position => true,
            Type::Range => true,
            Type::Query(t) => t.is_location(),
            Type::SetOf(t) => t.is_location(),
            _ => false,
        }
    }

    /// The type with every `Query` wrapper stripped.
    pub open spec fn spec_unquery(&self) -> Type
        decreases self,
    {
        match self {
            Type::Query(inner) => inner.spec_unquery(),
            _ => *self,
        }
    }

    pub fn unquery(&self) -> (r: Type)
        ensures
            r == self.spec_unquery(),
        decreases self,
    {
        match self {
            Type::Query(inner) => inner.unquery(),
            _ => self.clone(),
        }
    }

    /// The element type of a set type.
    pub fn expect_set_inner(&self) -> (r: Type)
        requires
            self matches Type::SetOf(_),
        ensures
            self matches Type::SetOf(inner) && r == *inner,
    {
        match self {
            Type::SetOf(inner) => (**inner).clone(),
            _ => vstd::pervasive::unreached(),
        }
    }

    /// The element type, for a set type.
    pub fn element_type(&self) -> (r: Option<&Type>)
        ensures
            (self matches Type::SetOf(inner) ==> r matches Some(t) && *t == *inner),
            !(self matches Type::SetOf(_)) ==> r is None,
    {
        match self {
            Type::SetOf(t) => Some(&*t),
            _ => None,
        }
    }
}

/// Model of a value's shape and contents.
pub enum GVal {
    Void,
    Number(int),
    SetOf(Seq<GVal>),
    Position(Position),
    Range(GRange),
    Query(Box<GQuery>),
    Identifier(GIdent),
    Str(Seq<char>),
    Definition(GDef),
}

/// Model of a value together with its type tag.
pub struct GValue {
    pub ty: Type,
    pub kind: GVal,
}

/// Model of a deferred computation.
pub enum GQuery {
    Ready(Box<GValue>),
    Function(GFun),
}

/// Model of a deferred call node.
pub struct GFun {
    pub def: crate::query::QueryFun,
    pub ty: Type,
    pub lhs: Box<GQuery>,
    pub args: Seq<GVal>,
}

/// An eager value: its type tag and its contents, which stay consistent
/// under every transformation.
#[derive(Eq, PartialEq, Debug)]
pub struct Value {
    pub ty: Type,
    pub kind: ValueKind,
}

#[derive(Eq, PartialEq, Debug)]
pub enum ValueKind {
    Void,
    Number(usize),
    SetOf(Vec<Value>),
    Position(Position),
    Range(Range),
    Query(crate::query::Query),
    Identifier(Identifier),
    String(String),
    Definition(Definition),
}

impl ValueKind {
    pub open spec fn model(&self) -> GVal
        decreases self,
    {
        match self {
            ValueKind::Void => GVal::Void,
            ValueKind::Number(n) => GVal::Number(*n as int),
            ValueKind::SetOf(vs) => GVal::SetOf(values_model(vs@)),
            ValueKind::Position(p) => GVal::Position(*p),
            ValueKind::Range(r) => GVal::Range(r.model()),
            ValueKind::Query(q) => GVal::Query(Box::new(q.model())),
            ValueKind::Identifier(i) => GVal::Identifier(i.model()),
            ValueKind::String(s) => GVal::Str(s@),
            ValueKind::Definition(d) => GVal::Definition(d.model()),
        }
    }

    /// Whether this value holds nothing: void itself, or an empty set.
    pub open spec fn spec_is_void(&self) -> bool {
        match self {
            ValueKind::Void => true,
            ValueKind::SetOf(v) => v@.len() == 0,
            _ => false,
        }
    }

    pub fn is_void(&self) -> (r: bool)
        ensures
            r == self.spec_is_void(),
    {
        match self {
            ValueKind::Void => true,
            ValueKind::SetOf(v) => v.len() == 0,
            _ => false,
        }
    }
}

/// Models of a vector of values.
pub open spec fn values_model(vs: Seq<Value>) -> Seq<GVal>
    decreases vs,
{
    if vs.len() == 0 {
        Seq::empty()
    } else {
        seq![vs[0].kind.model()] + values_model(vs.drop_first())
    }
}

impl Value {
    pub open spec fn model(&self) -> GValue
        decreases self,
    {
        GValue { ty: self.ty, kind: self.kind.model() }
    }

    pub fn void() -> (r: Value)
        ensures
            r.ty == Type::Void,
            r.kind == ValueKind::Void,
    {
        Value { ty: Type::Void, kind: ValueKind::Void }
    }

    pub fn number(n: usize) -> (r: Value)
        ensures
            r.ty == Type::Number,
            r.kind == ValueKind::Number(n),
    {
        Value { ty: Type::Number, kind: ValueKind::Number(n) }
    }

    pub fn string(s: String) -> (r: Value)
        ensures
            r.ty == Type::String,
            r.kind matches ValueKind::String(t) && t@ == s@,
    {
        Value { ty: Type::String, kind: ValueKind::String(s) }
    }

    /// Takes the carried query out of a query value.
    pub fn expect_query(self) -> (r: crate::query::Query)
        requires
            self.kind matches ValueKind::Query(_),
        ensures
            self.kind matches ValueKind::Query(q) && r == q,
    {
        match self.kind {
            ValueKind::Query(q) => q,
            _ => vstd::pervasive::unreached(),
        }
    }

    /// Takes the carried string out of a string value.
    pub fn expect_string(self) -> (r: String)
        requires
            self.kind matches ValueKind::String(_),
        ensures
            self.kind matches ValueKind::String(s) && r == s,
    {
        match self.kind {
            ValueKind::String(s) => s,
            _ => vstd::pervasive::unreached(),
        }
    }

    /// The deferred view of a value: a query value yields its own query,
    /// any other is already computed.
    pub fn into_query(self) -> (r: crate::query::Query)
        ensures
            (self.kind matches ValueKind::Query(q) ==> r == q),
            !(self.kind matches ValueKind::Query(_)) ==> r.model() == GQuery::Ready(
                Box::new(self.model()),
            ),
    {
        match self.kind {
            ValueKind::Query(q) => q,
            kind => crate::query::Query::ready(Value { ty: self.ty, kind }),
        }
    }
}

/// A value sequence and its model have the same length.
pub proof fn lemma_values_model_len(vs: Seq<Value>)
    ensures
        values_model(vs).len() == vs.len(),
    decreases vs.len(),
{
    if vs.len() > 0 {
        lemma_values_model_len(vs.drop_first());
    }
}

/// The model of a value sequence is pointwise the model of its elements.
pub proof fn lemma_values_model_index(vs: Seq<Value>, i: int)
    requires
        0 <= i < vs.len(),
    ensures
        values_model(vs).len() == vs.len(),
        values_model(vs)[i] == vs[i].kind.model(),
    decreases i,
{
    lemma_values_model_len(vs);
    if i > 0 {
        lemma_values_model_index(vs.drop_first(), i - 1);
    }
}

pub proof fn lemma_values_model_push(vs: Seq<Value>, v: Value)
    ensures
        values_model(vs.push(v)) =~= values_model(vs) + seq![v.kind.model()],
    decreases vs.len(),
{
    if vs.len() == 0 {
        assert(vs.push(v).drop_first() =~= Seq::<Value>::empty());
        assert(vs.push(v)[0] == v);
        assert(values_model(vs) =~= Seq::<GVal>::empty());
        assert(values_model(Seq::<Value>::empty()) =~= Seq::<GVal>::empty());
        assert(values_model(vs.push(v)) == seq![v.kind.model()] + values_model(
            vs.push(v).drop_first(),
        ));
        assert(seq![v.kind.model()] + Seq::<GVal>::empty() =~= seq![v.kind.model()]);
        assert(Seq::<GVal>::empty() + seq![v.kind.model()] =~= seq![v.kind.model()]);
    } else {
        assert(vs.push(v).drop_first() =~= vs.drop_first().push(v));
        assert(vs.push(v)[0] == vs[0]);
        lemma_values_model_push(vs.drop_first(), v);
        assert(values_model(vs.push(v)) == seq![vs[0].kind.model()] + values_model(
            vs.drop_first().push(v),
        ));
        assert(values_model(vs) == seq![vs[0].kind.model()] + values_model(vs.drop_first()));
        assert(values_model(vs.drop_first().push(v)) =~= values_model(vs.drop_first())
            + seq![v.kind.model()]);
        assert((seq![vs[0].kind.model()] + values_model(vs.drop_first())) + seq![v.kind.model()]
            =~= seq![vs[0].kind.model()] + (values_model(vs.drop_first()) + seq![v.kind.model()]));
    }
}

/// Clones every value of a vector; the models are kept exactly.
pub fn clone_values(vs: &Vec<Value>) -> (r: Vec<Value>)
    ensures
        values_model(r@) == values_model(vs@),
        r@.len() == vs@.len(),
    decreases vs,
{
    let mut r: Vec<Value> = Vec::new();
    let mut i: usize = 0;
    while i < vs.len()
        invariant
            0 <= i <= vs@.len(),
            r@.len() == i,
            values_model(r@) =~= values_model(vs@.subrange(0, i as int)),
        decreases vs@.len() - i,
    {
        let c = vs[i].clone();
        proof {
            lemma_values_model_push(r@, c);
            lemma_values_model_push(vs@.subrange(0, i as int), vs@[i as int]);
            assert(vs@.subrange(0, i as int).push(vs@[i as int]) =~= vs@.subrange(0, i as int + 1));
        }
        r.push(c);
        i = i + 1;
    }
    proof {
        assert(vs@.subrange(0, vs@.len() as int) =~= vs@);
    }
    r
}

fn clone_paths(ps: &Vec<Path>) -> (r: Vec<Path>)
    ensures
        r@ == ps@,
{
    let mut r: Vec<Path> = Vec::new();
    let mut i: usize = 0;
    while i < ps.len()
        invariant
            0 <= i <= ps@.len(),
            r@ =~= ps@.subrange(0, i as int),
        decreases ps@.len() - i,
    {
        r.push(ps[i]);
        proof {
            assert(r@ =~= ps@.subrange(0, i as int + 1));
        }
        i = i + 1;
    }
    proof {
        assert(ps@.subrange(0, ps@.len() as int) =~= ps@);
    }
    r
}

impl Clone for Value {
    fn clone(&self) -> (r: Value)
        ensures
            r.model() == self.model(),
        decreases self,
    {
        Value { ty: self.ty.clone(), kind: self.kind.clone() }
    }
}

impl Clone for ValueKind {
    fn clone(&self) -> (r: ValueKind)
        ensures
            r.model() == self.model(),
        decreases self,
    {
        match self {
            ValueKind::Void => ValueKind::Void,
            ValueKind::Number(n) => ValueKind::Number(*n),
            ValueKind::SetOf(vs) => ValueKind::SetOf(clone_values(vs)),
            ValueKind::Position(p) => ValueKind::Position(*p),
            ValueKind::Range(rg) => ValueKind::Range(rg.clone_range()),
            ValueKind::Query(q) => ValueKind::Query(q.clone()),
            ValueKind::Identifier(i) => ValueKind::Identifier(
                Identifier { id: i.id, span: i.span, name: i.name.clone() },
            ),
            ValueKind::String(s) => ValueKind::String(s.clone()),
            ValueKind::Definition(d) => ValueKind::Definition(
                Definition { id: d.id, span: d.span, name: d.name.clone() },
            ),
        }
    }
}

/// The subtype lattice, as stated in the rules above: a type is a subtype
/// of itself, of the set of it, and of the query of it; void stands below
/// every set type; positions and ranges stand below locations.
pub open spec fn subtype(a: Type, b: Type) -> bool {
    ||| a == b
    ||| (b matches Type::SetOf(t) && (a == *t || a == Type::Void))
    ||| (b matches Type::Query(t) && a == *t)
    ||| (b == Type::Location && (a == Type::Position || a == Type::Range))
}

/// A single value of type `T` is usable where `Set(T)` is expected.
pub proof fn lemma_value_below_set(t: Type)
    ensures
        subtype(t, Type::SetOf(Box::new(t))),
{
}

/// Void is usable wherever an empty set is expected.
pub proof fn lemma_void_below_set(t: Type)
    ensures
        subtype(Type::Void, Type::SetOf(Box::new(t))),
{
}

/// A ready value of type `T` is a trivially-ready query of `T`.
pub proof fn lemma_ready_below_query(t: Type)
    ensures
        subtype(t, Type::Query(Box::new(t))),
{
}

/// Positions and ranges are locations, and every subtype of a location
/// counts as location-compatible.
pub proof fn lemma_locations_below_location(a: Type)
    requires
        subtype(a, Type::Location),
    ensures
        a.spec_is_location(),
{
}

/// The one coercion point from single values to sets: a set yields its
/// elements, a void value (the empty set) yields none, and any other
/// single value behaves as the one-element set holding it.
pub fn set_elements(v: Value) -> (r: Vec<Value>)
    ensures
        (v.kind matches ValueKind::SetOf(s) ==> values_model(r@) == values_model(s@)),
        (v.kind matches ValueKind::Void ==> r@.len() == 0),
        (!(v.kind matches ValueKind::SetOf(_)) && !(v.kind matches ValueKind::Void)) ==> (r@.len()
            == 1 && r@[0] == v),
{
    match v.kind {
        ValueKind::SetOf(s) => s,
        ValueKind::Void => Vec::new(),
        kind => {
            let mut r: Vec<Value> = Vec::new();
            r.push(Value { ty: v.ty, kind });
            r
        },
    }
}

impl Range {
    /// A copy of this range with the same model.
    pub fn clone_range(&self) -> (r: Range)
        ensures
            r.model() == self.model(),
    {
        match self {
            Range::File(p) => Range::File(*p),
            Range::MultiFile(ps) => Range::MultiFile(clone_paths(ps)),
            Range::Line(p, l) => Range::Line(*p, *l),
            Range::Span(sp) => Range::Span(*sp),
        }
    }
}

} // verus!
