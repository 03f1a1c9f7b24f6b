use serde_extract::extract;
use serde_extract::resolve_field;
use serde_extract::scan_emission;
use serde_extract::Emission;
use serde_extract::ExtractError;
use serde_extract::ExtractFieldByNameSerializer;
use serde_extract::ExtractFieldByNameState;
use serde_extract::ShapeHint;
use serde_extract::ThisMapAccess;

fn s(x: &str) -> String {
    x.to_string()
}

fn record(entries: Vec<(&str, Emission)>) -> Emission {
    Emission::Record(entries.into_iter().map(|(k, v)| (s(k), v)).collect())
}

fn fields(names: Vec<&str>) -> ShapeHint {
    ShapeHint::NamedFields(names.into_iter().map(s).collect())
}

#[test]
fn idempotent_extraction() {
    // Two independent extractions of the same field yield the same value.
    let make = || {
        record(vec![
            ("a", Emission::Str(s("hello"))),
            ("b", Emission::U32(7)),
        ])
    };
    let first = extract(&make(), &fields(vec!["b"]));
    let second = extract(&make(), &fields(vec!["b"]));
    assert_eq!(first, second);
    assert_eq!(first, Ok(record(vec![("b", Emission::U32(7))])));
}

#[test]
fn selectivity_skips_unsupported_siblings() {
    // b is a structurally unsupported sequence, but requesting only c
    // succeeds because b's value is never dereferenced.
    let source = record(vec![
        ("a", Emission::Str(s("hello"))),
        (
            "b",
            Emission::Sequence(vec![
                Emission::U32(4),
                Emission::U32(5),
                Emission::U32(6),
            ]),
        ),
        ("c", Emission::U32(3)),
    ]);
    let got = extract(&source, &fields(vec!["c"]));
    assert_eq!(got, Ok(record(vec![("c", Emission::U32(3))])));
    // Requesting b itself fails, since a sequence cannot be pulled.
    let got_b = extract(&source, &fields(vec!["b"]));
    assert_eq!(got_b, Err(ExtractError::UnsupportedShape));
}

#[test]
fn last_wins_override() {
    // The same key emitted twice resolves to the later value.
    let source = record(vec![
        ("c", Emission::Str(s("first"))),
        ("c", Emission::Str(s("second"))),
    ]);
    let got = extract(&source, &fields(vec!["c"]));
    assert_eq!(got, Ok(record(vec![("c", Emission::Str(s("second")))])));
}

#[test]
fn last_wins_override_three_occurrences() {
    let source = record(vec![
        ("c", Emission::Str(s("first"))),
        ("d", Emission::U32(1)),
        ("c", Emission::Str(s("second"))),
        ("c", Emission::Str(s("third"))),
    ]);
    let got = resolve_field(&source, &s("c"), &ShapeHint::Any);
    assert_eq!(got, Ok(Emission::Str(s("third"))));
}

#[test]
fn absent_field_maps_to_absent() {
    // A requested field with no matching entry resolves as absent; a
    // receiver with an optional target reads that as empty, one with a
    // required target fails on its own terms.
    let source = record(vec![("a", Emission::U32(1))]);
    let got = extract(&source, &fields(vec!["missing"]));
    assert_eq!(got, Ok(record(vec![("missing", Emission::Absent)])));
    // A required-field receiver turns the absence into its own error.
    let required: Result<Emission, String> = match extract(&source, &fields(vec!["missing"])) {
        Ok(Emission::Record(mut entries)) => match entries.pop() {
            Some((name, Emission::Absent)) => Err(format!("missing field `{}`", name)),
            Some((_, value)) => Ok(value),
            None => Err(s("empty result")),
        },
        other => panic!("unexpected result {:?}", other),
    };
    assert_eq!(required, Err(s("missing field `missing`")));
}

#[test]
fn primitive_passthrough_exact() {
    assert_eq!(extract(&Emission::U32(12), &ShapeHint::Any), Ok(Emission::U32(12)));
    assert_eq!(extract(&Emission::Bool(true), &ShapeHint::Any), Ok(Emission::Bool(true)));
    assert_eq!(extract(&Emission::I64(-5), &ShapeHint::Any), Ok(Emission::I64(-5)));
    assert_eq!(
        extract(
            &Emission::Str(s("x")),
            &ShapeHint::Optional(Box::new(ShapeHint::Any))
        ),
        Ok(Emission::Str(s("x")))
    );
    assert_eq!(
        extract(&Emission::Bytes(vec![1, 2, 3]), &ShapeHint::Any),
        Ok(Emission::Bytes(vec![1, 2, 3]))
    );
    assert_eq!(extract(&Emission::Unit, &ShapeHint::Any), Ok(Emission::Unit));
    // A unit tag is forwarded as its name.
    assert_eq!(
        extract(&Emission::UnitTag(s("North")), &ShapeHint::Any),
        Ok(Emission::Str(s("North")))
    );
}

#[test]
fn nested_projection() {
    // c contributed by a merged namespace: the flattened emission simply
    // lists it alongside the others; projection is independent of how the
    // source arrived at that list.
    let source = record(vec![
        ("a", Emission::Str(s("hello"))),
        ("b", Emission::U32(3)),
        ("c", Emission::Str(s("world"))),
    ]);
    let got = extract(&source, &fields(vec!["b", "c"]));
    assert_eq!(
        got,
        Ok(record(vec![
            ("b", Emission::U32(3)),
            ("c", Emission::Str(s("world"))),
        ]))
    );
}

#[test]
fn discriminated_union_passthrough() {
    let source = Emission::TaggedWrapped(s("B"), Box::new(Emission::Str(s("world"))));
    let got = extract(&source, &ShapeHint::Any);
    assert_eq!(
        got,
        Ok(Emission::TaggedWrapped(s("B"), Box::new(Emission::Str(s("world")))))
    );
}

#[test]
fn rejection_of_unhinted_shapes() {
    // A sequence, a tuple, or a field collection pulled without a declared
    // field list fails with UnsupportedShape.
    let seq = Emission::Sequence(vec![Emission::U32(1)]);
    let tup = Emission::Tuple(vec![Emission::U32(1), Emission::U32(2)]);
    let rec = record(vec![("a", Emission::U32(1))]);
    let assoc = Emission::Assoc(vec![(Emission::Str(s("a")), Emission::U32(1))]);
    for v in [seq, tup, rec, assoc] {
        assert_eq!(extract(&v, &ShapeHint::Any), Err(ExtractError::UnsupportedShape));
        assert_eq!(
            extract(&v, &ShapeHint::Optional(Box::new(ShapeHint::Any))),
            Err(ExtractError::UnsupportedShape)
        );
    }
    // A fielded pull from a non-collection is rejected too.
    assert_eq!(
        extract(&Emission::U32(1), &fields(vec!["a"])),
        Err(ExtractError::UnsupportedShape)
    );
}

#[test]
fn non_string_key_is_rejected() {
    // The key-equality probe only supports string-shaped keys.
    let source = Emission::Assoc(vec![(Emission::U32(1), Emission::U32(2))]);
    let got = extract(&source, &fields(vec!["a"]));
    assert_eq!(got, Err(ExtractError::UnsupportedShape));
}

#[test]
fn next_value_without_next_key_is_a_protocol_error() {
    let source = record(vec![("a", Emission::U32(1))]);
    let mut access = ThisMapAccess::new(&source, Vec::new());
    assert_eq!(access.next_key(), None);
    assert_eq!(
        access.next_value(&ShapeHint::Any),
        Err(ExtractError::FieldCalledOutOfProtocol)
    );
}

#[test]
fn pull_protocol_overrides_by_repeating_the_key() {
    // With a duplicated key, the front field is offered again after its
    // first resolution, and the rescan hands out the overriding value.
    let source = record(vec![
        ("c", Emission::Str(s("first"))),
        ("c", Emission::Str(s("second"))),
    ]);
    let mut access = ThisMapAccess::new(&source, vec![s("c")]);
    assert_eq!(access.next_key(), Some(s("c")));
    assert_eq!(access.next_value(&ShapeHint::Any), Ok(Emission::Str(s("first"))));
    // The field was kept: the same key is offered again.
    assert_eq!(access.next_key(), Some(s("c")));
    assert_eq!(access.next_value(&ShapeHint::Any), Ok(Emission::Str(s("second"))));
    assert_eq!(access.next_key(), None);
}

#[test]
fn next_entry_skips_absent_fields() {
    let source = record(vec![("b", Emission::U32(2))]);
    let mut access = ThisMapAccess::new(&source, vec![s("a"), s("b"), s("c")]);
    assert_eq!(
        access.next_entry(&ShapeHint::Any),
        Ok(Some((s("b"), Emission::U32(2))))
    );
    assert_eq!(access.next_entry(&ShapeHint::Any), Ok(None));
}

#[test]
fn optional_seed_resolves_absent_and_present() {
    let source = record(vec![(
        "a",
        Emission::Present(Box::new(Emission::Str(s("hello")))),
    )]);
    let optional_any = || ShapeHint::Optional(Box::new(ShapeHint::Any));
    let mut access = ThisMapAccess::new(&source, vec![s("a"), s("z")]);
    assert_eq!(access.next_key(), Some(s("a")));
    assert_eq!(
        access.next_value(&optional_any()),
        Ok(Emission::Present(Box::new(Emission::Str(s("hello")))))
    );
    assert_eq!(access.next_key(), Some(s("z")));
    assert_eq!(access.next_value(&optional_any()), Ok(Emission::Absent));
}

#[test]
fn nested_named_fields() {
    // A field whose value is itself a record is extracted with the field
    // list the nested receiver declares, projecting only what it asks for.
    let source = record(vec![(
        "d",
        record(vec![("e", Emission::Bool(true)), ("f", Emission::U32(1))]),
    )]);
    let got = resolve_field(&source, &s("d"), &ShapeHint::NamedFields(vec![s("e")]));
    assert_eq!(got, Ok(record(vec![("e", Emission::Bool(true))])));
}

#[test]
fn present_record_extracted_with_declared_fields() {
    // An optional struct field: the record inside a Present value is
    // extracted with the nested receiver's declared fields.
    let inner = || record(vec![("d", Emission::U32(3))]);
    let source = record(vec![("c", Emission::Present(Box::new(inner())))]);
    let seed = ShapeHint::Optional(Box::new(ShapeHint::NamedFields(vec![s("d")])));
    let got = resolve_field(&source, &s("c"), &seed);
    assert_eq!(got, Ok(Emission::Present(Box::new(inner()))));
    // The same holds for a record inside a transparent wrapper.
    let wrapped = record(vec![(
        "w",
        Emission::Wrapped(Box::new(record(vec![("e", Emission::Bool(true))]))),
    )]);
    let seed_w = ShapeHint::Optional(Box::new(ShapeHint::NamedFields(vec![s("e")])));
    let got_w = resolve_field(&wrapped, &s("w"), &seed_w);
    assert_eq!(
        got_w,
        Ok(Emission::Wrapped(Box::new(record(vec![(
            "e",
            Emission::Bool(true)
        )]))))
    );
}

#[test]
fn inconsistent_resume_position_is_detected() {
    // A resume position must sit on an entry whose key matches; scanning
    // from a position that does not match signals a broken emitter.
    let source = record(vec![("a", Emission::U32(1)), ("b", Emission::U32(2))]);
    let key = s("x");
    let got = scan_emission(
        &source,
        ExtractFieldByNameSerializer {
            key_to_find: &key,
            vseed: &ShapeHint::Any,
            start_idx: 1,
        },
    );
    assert_eq!(got, Err(ExtractError::InconsistentEmission));
}

#[test]
fn scan_state_reports_later_duplicates() {
    let source = record(vec![
        ("c", Emission::Str(s("first"))),
        ("c", Emission::Str(s("second"))),
    ]);
    let key = s("c");
    let got = scan_emission(
        &source,
        ExtractFieldByNameSerializer {
            key_to_find: &key,
            vseed: &ShapeHint::Any,
            start_idx: 0,
        },
    );
    assert_eq!(
        got,
        Ok(ExtractFieldByNameState::SeenAndMoreOfTheSameAreAvailable {
            value: Emission::Str(s("first")),
            first_next_available: 1,
        })
    );
}

#[test]
fn split_key_value_protocol_matches_combined_entries() {
    // Driving a map scan key-by-key then value-by-value resolves the same
    // field as driving it entry-by-entry.
    let key = s("c");
    let seed = ShapeHint::Any;
    let entries = [
        (Emission::Str(s("a")), Emission::U32(1)),
        (Emission::Str(s("c")), Emission::Str(s("first"))),
        (Emission::Str(s("c")), Emission::Str(s("second"))),
    ];
    let ser = ExtractFieldByNameSerializer {
        key_to_find: &key,
        vseed: &seed,
        start_idx: 0,
    };
    let mut split = ser.serialize_map();
    for (k, v) in entries.iter() {
        split.serialize_key(k).unwrap();
        split.serialize_value(v).unwrap();
    }
    let split_state = split.end();
    let ser2 = ExtractFieldByNameSerializer {
        key_to_find: &key,
        vseed: &seed,
        start_idx: 0,
    };
    let mut combined = ser2.serialize_map();
    for (k, v) in entries.iter() {
        combined.serialize_entry(k, v).unwrap();
    }
    assert_eq!(split_state, combined.end());
}

#[test]
fn errors_propagate_from_nested_values() {
    // A matching entry whose value cannot be pulled propagates its error.
    let source = record(vec![(
        "a",
        Emission::Sequence(vec![Emission::U32(1)]),
    )]);
    let got = extract(&source, &fields(vec!["a"]));
    assert_eq!(got, Err(ExtractError::UnsupportedShape));
}
