use clyde::ast::{Context, Location};
use clyde::data::{Locator, Path, Position, Range, Span, Type, Value, ValueKind};
use clyde::fs::{resolve_location, Error as FsError, FileSystem, SearchPattern};

struct MockFs;

impl FileSystem for MockFs {
    fn find(&self, pat: SearchPattern) -> Result<Vec<Path>, FsError> {
        let SearchPattern::Name(s) = pat;
        match s.as_str() {
            "foo.rs" => Ok(vec![Path { key: 1 }]),
            "bar.rs" => Ok(vec![Path { key: 2 }]),
            "baz.rs" => Ok(vec![Path { key: 3 }]),
            "lib.rs" => Ok(vec![Path { key: 2 }, Path { key: 3 }]),
            other => Err(FsError::Other(other.to_owned())),
        }
    }

    fn resolve_location(&self, loc: Location) -> Result<Locator, FsError> {
        resolve_location(loc, self)
    }

    fn show_path(&self, path: Path) -> Result<String, FsError> {
        match path.key {
            1 => Ok("foo.rs".to_owned()),
            2 => Ok("bar.rs".to_owned()),
            3 => Ok("baz.rs".to_owned()),
            _ => Err(FsError::InternalError("unknown path".to_owned())),
        }
    }

    fn line_at(&self, path: Path, line: usize) -> Result<Option<String>, FsError> {
        if line < 20 {
            Ok(Some(format!("This is line {} of a file with number {}.", line, path.key)))
        } else {
            Ok(None)
        }
    }

    fn snippet(&self, range: &Range) -> Result<String, FsError> {
        Ok(format!("snippet at {:?}", range))
    }
}

fn location(file: Option<&str>, line: Option<usize>, column: Option<usize>) -> Location {
    Location::new(file.map(|s| s.to_owned()), line, column, Context::default())
}

fn file_range(key: u64) -> Locator {
    Locator::Range(Range::File(Path { key }))
}

fn line_range(key: u64, line: usize) -> Locator {
    Locator::Range(Range::Line(Path { key }, line))
}

fn position(key: u64, line: usize, column: usize) -> Locator {
    Locator::Position(Position { file: Path { key }, line, column })
}

#[test]
fn test_resolve_loc() {
    assert!(resolve_location(location(None, None, None), &MockFs).is_err());
    assert_eq!(
        resolve_location(location(Some("bar.rs"), None, None), &MockFs).unwrap(),
        file_range(2)
    );
    assert_eq!(
        resolve_location(location(Some("baz.rs"), Some(4), None), &MockFs).unwrap(),
        line_range(3, 3)
    );
    assert_eq!(
        resolve_location(location(Some("foo.rs"), Some(4), Some(42)), &MockFs).unwrap(),
        position(1, 3, 41)
    );
}

#[test]
fn resolve_loc_multi_file() {
    match resolve_location(location(Some("lib.rs"), None, None), &MockFs).unwrap() {
        Locator::Range(Range::MultiFile(ps)) => {
            assert_eq!(ps, vec![Path { key: 2 }, Path { key: 3 }]);
        }
        other => panic!("expected a multi-file range, found {:?}", other),
    }
    assert!(resolve_location(location(Some("lib.rs"), Some(1), None), &MockFs).is_err());
    assert!(resolve_location(location(Some("nope.rs"), None, None), &MockFs).is_err());
}

fn set_of_numbers(ns: &[usize]) -> Value {
    Value {
        kind: ValueKind::SetOf(ns.iter().map(|n| Value::number(*n)).collect()),
        ty: Type::SetOf(Box::new(Type::Number)),
    }
}

#[test]
fn test_value_show() {
    assert_eq!(Value::void().show_str(&MockFs).unwrap(), "()");
    assert_eq!(Value::number(42).show_str(&MockFs).unwrap(), "42");
    let set = set_of_numbers(&[1, 2, 3]);
    assert_eq!(set.show_str(&MockFs).unwrap(), "[1, 2, 3]");
    let set = set_of_numbers(&[1, 2, 3, 3, 3, 3, 3, 3]);
    assert_eq!(set.show_str(&MockFs).unwrap(), "[...]*8");
}

// An empty set displays identically to the void value.
#[test]
fn empty_set_displays_as_void() {
    let empty = set_of_numbers(&[]);
    assert_eq!(empty.show_str(&MockFs).unwrap(), "()");
    assert_eq!(Value::void().show_str(&MockFs).unwrap(), "()");
}

#[test]
fn test_location_show() {
    let fs = MockFs;

    let path = fs.find(SearchPattern::Name("foo.rs".to_owned())).unwrap().pop().unwrap();
    let pos = Position::new(path, 2, 3);
    let s = pos.show_str(&fs).unwrap();
    assert!(s.contains("foo.rs:3"));
    assert!(s.contains("This is line 2 of a file with number 1."));

    let range = Range::Line(path, 3);
    let s = range.show_str(&fs).unwrap();
    assert!(s.contains("foo.rs:4"));
    assert!(s.contains("This is line 3 of a file with number 1."));

    let span = Span::new(path, 3, 1, 3, 10);
    let s = span.show_str(&fs).unwrap();
    assert!(s.contains("foo.rs:4:2->11"));
    assert!(s.contains("This is line 3 of a file with number 1."));
}

// The exact caret-pointing layout of a shown position.
#[test]
fn position_show_exact() {
    let pos = Position::new(Path { key: 1 }, 2, 3);
    let s = pos.show_str(&MockFs).unwrap();
    assert_eq!(
        s,
        " --> foo.rs:3:4\n3 | This is line 2 of a file with number 1.\n       ^"
    );
}

// A one-line span underlines exactly its columns.
#[test]
fn span_show_exact() {
    let span = Span::new(Path { key: 1 }, 3, 1, 3, 10);
    let s = span.show_str(&MockFs).unwrap();
    assert_eq!(
        s,
        " --> foo.rs:4:2->11\n4 | This is line 3 of a file with number 1.\n     ^^^^^^^^^"
    );
    let multi = Span::new(Path { key: 1 }, 1, 2, 3, 4);
    assert_eq!(multi.show_str(&MockFs).unwrap(), " --> foo.rs:2:3->4:5\n");
}

// A line past the end of the file renders the out-of-range note.
#[test]
fn line_out_of_range() {
    let range = Range::Line(Path { key: 1 }, 25);
    let s = range.show_str(&MockFs).unwrap();
    assert!(s.contains("<error - line out of range>"));
}

#[test]
fn multi_file_show() {
    let few = Range::MultiFile(vec![Path { key: 2 }, Path { key: 3 }]);
    assert_eq!(few.show_str(&MockFs).unwrap(), "[bar.rs, baz.rs]");
    let many = Range::MultiFile(vec![Path { key: 1 }; 6]);
    assert_eq!(many.show_str(&MockFs).unwrap(), "[6 files]");
}

#[test]
fn string_and_identifier_show() {
    assert_eq!(
        Value::string("hi".to_owned()).show_str(&MockFs).unwrap(),
        "\"hi\""
    );
    let ident = Value {
        ty: Type::Identifier,
        kind: ValueKind::Identifier(clyde::data::Identifier {
            id: 3,
            span: Span::new(Path { key: 1 }, 0, 0, 0, 2),
            name: "abc".to_owned(),
        }),
    };
    assert_eq!(ident.show_str(&MockFs).unwrap(), "`abc`");
    let q = Value {
        ty: Type::Query(Box::new(Type::Number)),
        kind: ValueKind::Query(clyde::query::Query::ready(Value::number(1))),
    };
    assert_eq!(q.show_str(&MockFs).unwrap(), "<Query>");
}
