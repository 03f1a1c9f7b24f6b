use serde_extract::extract;
use serde_extract::Emission;
use serde_extract::ShapeHint;
use serde_extract::ThisMapAccess;

fn s(x: &str) -> String {
    x.to_string()
}

fn record(entries: Vec<(&str, Emission)>) -> Emission {
    Emission::Record(entries.into_iter().map(|(k, v)| (s(k), v)).collect())
}

fn fields(names: Vec<&str>) -> ShapeHint {
    ShapeHint::NamedFields(names.into_iter().map(s).collect())
}

#[test]
fn basic() {
    // A bare 32-bit unsigned value passes through to an unsigned target.
    let source = Emission::U32(12);
    let got = extract(&source, &ShapeHint::Any);
    assert_eq!(got, Ok(Emission::U32(12)));
}

#[test]
fn struct_() {
    // Only the requested field of a struct-shaped source is extracted.
    let source = record(vec![("a", Emission::Str(s("hello"))), ("b", Emission::U32(3))]);
    let got = extract(&source, &fields(vec!["b"]));
    assert_eq!(got, Ok(record(vec![("b", Emission::U32(3))])));
}

#[test]
fn map() {
    // A map-shaped source carries its keys as emissions of their own.
    let source = Emission::Assoc(vec![
        (Emission::Str(s("a")), Emission::Str(s("hello"))),
        (Emission::Str(s("c")), Emission::Str(s("world"))),
    ]);
    let got = extract(&source, &fields(vec!["a", "c"]));
    assert_eq!(
        got,
        Ok(record(vec![
            ("a", Emission::Str(s("hello"))),
            ("c", Emission::Str(s("world"))),
        ]))
    );
}

#[test]
fn large_depth() {
    // Nesting depth of transparent wrappers does not affect extraction.
    let mut a = Emission::Str(s("hello"));
    let mut c = Emission::Str(s("world"));
    for _ in 0..100 {
        a = Emission::Wrapped(Box::new(a));
        c = Emission::Wrapped(Box::new(c));
    }
    let source = record(vec![("a", a), ("c", c)]);
    let got = extract(&source, &fields(vec!["a", "c"]));
    match got {
        Ok(Emission::Record(entries)) => {
            assert_eq!(entries.len(), 2);
            assert_eq!(entries[0].0, s("a"));
            assert_eq!(entries[1].0, s("c"));
            // Each wrapped chain is preserved level for level.
            for (value, bottom) in [(&entries[0].1, "hello"), (&entries[1].1, "world")] {
                let mut v = value;
                let mut depth = 0;
                while let Emission::Wrapped(b) = v {
                    v = b;
                    depth += 1;
                }
                assert_eq!(depth, 100);
                assert_eq!(*v, Emission::Str(s(bottom)));
            }
        }
        other => panic!("expected a record result, got {:?}", other),
    }
}

#[test]
fn enum_() {
    // A tagged single-value emission is pulled as a discriminated union.
    let source = record(vec![
        ("a", Emission::Str(s("hello"))),
        (
            "b",
            Emission::TaggedWrapped(s("B"), Box::new(Emission::Str(s("world")))),
        ),
    ]);
    let got = extract(&source, &fields(vec!["b"]));
    assert_eq!(
        got,
        Ok(record(vec![(
            "b",
            Emission::TaggedWrapped(s("B"), Box::new(Emission::Str(s("world")))),
        )]))
    );
}

#[test]
fn option() {
    // Optional targets: an absent field maps to absence, a plain scalar is
    // presented as is, and a present struct value is extracted with the
    // field list its receiver declares.
    let source = record(vec![
        ("b", Emission::Str(s("hello"))),
        (
            "c",
            Emission::Present(Box::new(record(vec![("d", Emission::U32(3))]))),
        ),
    ]);
    let mut access = ThisMapAccess::new(&source, vec![s("a"), s("b"), s("c")]);
    assert_eq!(access.next_key(), Some(s("a")));
    assert_eq!(
        access.next_value(&ShapeHint::Optional(Box::new(ShapeHint::Any))),
        Ok(Emission::Absent)
    );
    assert_eq!(access.next_key(), Some(s("b")));
    assert_eq!(
        access.next_value(&ShapeHint::Optional(Box::new(ShapeHint::Any))),
        Ok(Emission::Str(s("hello")))
    );
    assert_eq!(access.next_key(), Some(s("c")));
    assert_eq!(
        access.next_value(&ShapeHint::Optional(Box::new(ShapeHint::NamedFields(vec![s("d")])))),
        Ok(Emission::Present(Box::new(record(vec![(
            "d",
            Emission::U32(3)
        )]))))
    );
    assert_eq!(access.next_key(), None);
}
