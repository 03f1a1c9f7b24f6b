//! Laws of the extraction engine, stated over its mathematical model and
//! proved once for all inputs.

use vstd::prelude::*;

use crate::extract_spec;
use crate::key_is;
use crate::map_access::entries_len;
use crate::map_access::entry_key_at;
use crate::map_access::entry_val_at;
use crate::map_access::first_bad_key_from;
use crate::map_access::first_match_from;
use crate::map_access::key_step_spec;
use crate::map_access::lemma_pass_from_sam;
use crate::map_access::pass_from_spec;
use crate::map_access::pass_spec;
use crate::map_access::resolve_field_from_spec;
use crate::map_access::resolve_field_spec;
use crate::map_access::scan_step_spec;
use crate::map_access::value_step_spec;
use crate::map_access::ExtractStateView;
use crate::shape::EmissionView;
use crate::shape::ExtractError;
use crate::shape::ShapeHintView;

verus! {

/// A scalar, unit or absent emission.
pub open spec fn is_primitive(v: EmissionView) -> bool {
    ||| v matches EmissionView::Bool(_)
    ||| v matches EmissionView::I8(_)
    ||| v matches EmissionView::I16(_)
    ||| v matches EmissionView::I32(_)
    ||| v matches EmissionView::I64(_)
    ||| v matches EmissionView::U8(_)
    ||| v matches EmissionView::U16(_)
    ||| v matches EmissionView::U32(_)
    ||| v matches EmissionView::U64(_)
    ||| v matches EmissionView::Char(_)
    ||| v matches EmissionView::Str(_)
    ||| v matches EmissionView::Bytes(_)
    ||| v matches EmissionView::Unit
    ||| v matches EmissionView::Absent
}

/// The value inside a successful extraction result.
pub open spec fn ok_of(r: Result<EmissionView, ExtractError>) -> EmissionView {
    match r {
        Ok(x) => x,
        Err(_) => arbitrary(),
    }
}

/// Extraction is a pure function of the source and the declared
/// expectation: two independent extractions from the same deterministic
/// source yield the same result.
pub proof fn lemma_extract_idempotent(
    v: EmissionView,
    hint: ShapeHintView,
    r1: Result<EmissionView, ExtractError>,
    r2: Result<EmissionView, ExtractError>,
)
    requires
        r1 == extract_spec(v, hint),
        r2 == extract_spec(v, hint),
    ensures
        r1 == r2,
{
}

/// A primitive emission passes through unchanged, whether pulled with no
/// expectation or as an optional value, whatever nested expectation the
/// optional pull declares.
pub proof fn lemma_primitive_passthrough(v: EmissionView, inner: ShapeHintView)
    requires
        is_primitive(v),
    ensures
        extract_spec(v, ShapeHintView::Any) == Ok::<EmissionView, ExtractError>(v),
        extract_spec(v, ShapeHintView::Optional(Box::new(inner))) == Ok::<
            EmissionView,
            ExtractError,
        >(v),
{
}

/// A collection-shaped emission pulled without a declared field list is
/// rejected: a sequence, a tuple, or a field collection under an `Any` or
/// `Optional` expectation.
pub proof fn lemma_unhinted_collection_rejected(v: EmissionView, hint: ShapeHintView)
    requires
        hint matches ShapeHintView::Any || hint matches ShapeHintView::Optional(_),
        (v matches EmissionView::Record(_) || v matches EmissionView::Assoc(_)
            || v matches EmissionView::Sequence(_) || v matches EmissionView::Tuple(_)),
    ensures
        extract_spec(v, hint) == Err::<EmissionView, ExtractError>(ExtractError::UnsupportedShape),
{
}

/// A named-field pull that requests at least one field from an emission
/// that is not a field collection is rejected.
pub proof fn lemma_fielded_pull_needs_field_collection(v: EmissionView, names: Seq<Seq<char>>)
    requires
        !(v matches EmissionView::Record(_)),
        !(v matches EmissionView::Assoc(_)),
        names.len() > 0,
    ensures
        extract_spec(v, ShapeHintView::NamedFields(names)) == Err::<EmissionView, ExtractError>(
            ExtractError::UnsupportedShape,
        ),
{
    assert(pass_spec(v, names[0], ShapeHintView::Any, 0) == Err::<ExtractStateView, ExtractError>(
        ExtractError::UnsupportedShape,
    ));
    assert(resolve_field_from_spec(v, names[0], ShapeHintView::Any, 0) == Err::<
        EmissionView,
        ExtractError,
    >(ExtractError::UnsupportedShape));
    assert(resolve_field_spec(v, names[0], ShapeHintView::Any) == Err::<
        EmissionView,
        ExtractError,
    >(ExtractError::UnsupportedShape));
    assert(crate::fields_from_spec(v, names, 0, Seq::empty()) == Err::<
        Seq<(Seq<char>, EmissionView)>,
        ExtractError,
    >(ExtractError::UnsupportedShape));
}

/// Emitting a key and then its value drives the scan exactly as emitting
/// the combined entry does, from every state the combined protocol can
/// reach between entries.
pub proof fn lemma_split_entry_equals_combined(
    st: ExtractStateView,
    k: EmissionView,
    vres: Result<EmissionView, ExtractError>,
    key: Seq<char>,
    i: int,
    start: int,
)
    requires
        !(st matches ExtractStateView::ShouldTakeNext),
        !(st matches ExtractStateView::Broken),
    ensures
        (match key_step_spec(st, k, key, i, start) {
            Err(e) => scan_step_spec(st, k, vres, key, i, start) == Err::<
                ExtractStateView,
                ExtractError,
            >(e),
            Ok(st2) => value_step_spec(st2, vres) == scan_step_spec(st, k, vres, key, i, start),
        }),
{
}

/// Where `first_match_from` points: a matching key at the answer, none
/// before it.
pub proof fn lemma_first_match_bounds(v: EmissionView, key: Seq<char>, i: int, m: int)
    requires
        0 <= i,
        first_match_from(v, key, i) == Some(m),
    ensures
        i <= m < entries_len(v),
        key_is(entry_key_at(v, m), key),
        forall|j: int| i <= j < m ==> !(#[trigger] key_is(entry_key_at(v, j), key)),
    decreases entries_len(v) - i,
{
    if i < entries_len(v) && !key_is(entry_key_at(v, i), key) {
        lemma_first_match_bounds(v, key, i + 1, m);
    }
}

/// A missing answer means no entry from `i` on matches.
pub proof fn lemma_first_match_none(v: EmissionView, key: Seq<char>, i: int, j: int)
    requires
        0 <= i <= j,
        first_match_from(v, key, i) is None,
        j < entries_len(v),
    ensures
        !key_is(entry_key_at(v, j), key),
    decreases entries_len(v) - i,
{
    if i < j {
        lemma_first_match_none(v, key, i + 1, j);
    }
}

/// No bad answer means every key from `i` on is string-shaped.
pub proof fn lemma_no_bad_key(v: EmissionView, i: int, j: int)
    requires
        0 <= i <= j,
        first_bad_key_from(v, i) is None,
        j < entries_len(v),
    ensures
        entry_key_at(v, j) matches EmissionView::Str(_),
    decreases entries_len(v) - i,
{
    if i < j {
        lemma_no_bad_key(v, i + 1, j);
    }
}

/// Entries before the resume position are skipped without effect.
proof fn lemma_pass_skip(
    v: EmissionView,
    key: Seq<char>,
    seed: ShapeHintView,
    i: int,
    st: ExtractStateView,
    start: int,
)
    requires
        0 <= i <= start,
    ensures
        pass_from_spec(v, key, seed, i, st, start) == pass_from_spec(v, key, seed, start, st, start),
    decreases start - i,
{
    if i < start {
        lemma_pass_skip(v, key, seed, i + 1, st, start);
    }
}

/// Once parked on a later duplicate, the rest of the scan changes nothing.
proof fn lemma_pass_sam_stable(
    v: EmissionView,
    key: Seq<char>,
    seed: ShapeHintView,
    i: int,
    st: ExtractStateView,
    start: int,
)
    requires
        0 <= i,
        i > start || start == 0,
        st matches ExtractStateView::SeenAndMore { .. },
        first_bad_key_from(v, 0) is None,
    ensures
        pass_from_spec(v, key, seed, i, st, start) == Ok::<ExtractStateView, ExtractError>(st),
    decreases entries_len(v) - i,
{
    if 0 <= i && i < entries_len(v) {
        lemma_no_bad_key(v, 0, i);
        lemma_pass_sam_stable(v, key, seed, i + 1, st, start);
    }
}

/// After the first match has been resolved, the scan either runs out (the
/// resolved value stands) or parks on the next duplicate.
proof fn lemma_pass_after_seen(
    v: EmissionView,
    key: Seq<char>,
    seed: ShapeHintView,
    i: int,
    val: EmissionView,
    start: int,
)
    requires
        0 <= i,
        i > start || start == 0,
        first_bad_key_from(v, 0) is None,
    ensures
        (match first_match_from(v, key, i) {
            None => pass_from_spec(v, key, seed, i, ExtractStateView::Seen(val), start) == Ok::<
                ExtractStateView,
                ExtractError,
            >(ExtractStateView::Seen(val)),
            Some(m2) => pass_from_spec(v, key, seed, i, ExtractStateView::Seen(val), start) == Ok::<
                ExtractStateView,
                ExtractError,
            >(ExtractStateView::SeenAndMore { value: val, first_next_available: m2 }),
        }),
    decreases entries_len(v) - i,
{
    if 0 <= i && i < entries_len(v) {
        lemma_no_bad_key(v, 0, i);
        if key_is(entry_key_at(v, i), key) {
            lemma_pass_sam_stable(
                v,
                key,
                seed,
                i + 1,
                ExtractStateView::SeenAndMore { value: val, first_next_available: i },
                start,
            );
        } else {
            lemma_pass_after_seen(v, key, seed, i + 1, val, start);
        }
    }
}

/// From a fresh state, the scan resolves the first match at or after the
/// resume position, then either finishes or parks on the next duplicate.
proof fn lemma_pass_from_not_seen(
    v: EmissionView,
    key: Seq<char>,
    seed: ShapeHintView,
    i: int,
    start: int,
)
    requires
        0 <= i,
        i > start || start == 0 || (i == start && key_is(entry_key_at(v, start), key)),
        first_bad_key_from(v, 0) is None,
        forall|j: int|
            i <= j < entries_len(v) && #[trigger] key_is(entry_key_at(v, j), key)
                ==> extract_spec(entry_val_at(v, j), seed) is Ok,
    ensures
        (match first_match_from(v, key, i) {
            None => pass_from_spec(v, key, seed, i, ExtractStateView::NotSeen, start) == Ok::<
                ExtractStateView,
                ExtractError,
            >(ExtractStateView::NotSeen),
            Some(m1) => (match first_match_from(v, key, m1 + 1) {
                None => pass_from_spec(v, key, seed, i, ExtractStateView::NotSeen, start) == Ok::<
                    ExtractStateView,
                    ExtractError,
                >(ExtractStateView::Seen(ok_of(extract_spec(entry_val_at(v, m1), seed)))),
                Some(m2) => pass_from_spec(v, key, seed, i, ExtractStateView::NotSeen, start)
                    == Ok::<ExtractStateView, ExtractError>(
                    ExtractStateView::SeenAndMore {
                        value: ok_of(extract_spec(entry_val_at(v, m1), seed)),
                        first_next_available: m2,
                    },
                ),
            }),
        }),
    decreases entries_len(v) - i,
{
    if 0 <= i && i < entries_len(v) {
        lemma_no_bad_key(v, 0, i);
        if key_is(entry_key_at(v, i), key) {
            assert(extract_spec(entry_val_at(v, i), seed) is Ok);
            lemma_pass_after_seen(
                v,
                key,
                seed,
                i + 1,
                ok_of(extract_spec(entry_val_at(v, i), seed)),
                start,
            );
        } else {
            lemma_pass_from_not_seen(v, key, seed, i + 1, start);
        }
    }
}

/// The multi-pass field resolution lands on the value of the last matching
/// entry at or after the resume position.
proof fn lemma_resolve_from_last(
    v: EmissionView,
    key: Seq<char>,
    seed: ShapeHintView,
    start: int,
    m: int,
)
    requires
        v matches EmissionView::Record(_) || v matches EmissionView::Assoc(_),
        first_bad_key_from(v, 0) is None,
        0 <= start <= entries_len(v),
        start == 0 || key_is(entry_key_at(v, start), key),
        start <= m < entries_len(v),
        key_is(entry_key_at(v, m), key),
        forall|j: int| m < j < entries_len(v) ==> !(#[trigger] key_is(entry_key_at(v, j), key)),
        forall|j: int|
            start <= j < entries_len(v) && #[trigger] key_is(entry_key_at(v, j), key)
                ==> extract_spec(entry_val_at(v, j), seed) is Ok,
    ensures
        resolve_field_from_spec(v, key, seed, start) == extract_spec(entry_val_at(v, m), seed),
    decreases entries_len(v) - start,
{
    if start == 0 {
        lemma_pass_from_not_seen(v, key, seed, 0, 0);
    } else {
        lemma_pass_skip(v, key, seed, 0, ExtractStateView::NotSeen, start);
        lemma_pass_from_not_seen(v, key, seed, start, start);
    }
    assert(pass_spec(v, key, seed, start) == pass_from_spec(
        v,
        key,
        seed,
        0,
        ExtractStateView::NotSeen,
        start,
    ));
    if first_match_from(v, key, start) is None {
        lemma_first_match_none(v, key, start, m);
    }
    let m1 = first_match_from(v, key, start).unwrap();
    lemma_first_match_bounds(v, key, start, m1);
    assert(key_is(entry_key_at(v, m1), key));
    assert(extract_spec(entry_val_at(v, m1), seed) is Ok);
    assert(m1 <= m) by {
        if m < m1 {
            assert(!key_is(entry_key_at(v, m), key));
        }
    }
    match first_match_from(v, key, m1 + 1) {
        None => {
            assert(m == m1) by {
                if m1 < m {
                    lemma_first_match_none(v, key, m1 + 1, m);
                }
            }
            assert(pass_spec(v, key, seed, start) == Ok::<ExtractStateView, ExtractError>(
                ExtractStateView::Seen(ok_of(extract_spec(entry_val_at(v, m1), seed))),
            ));
        },
        Some(m2) => {
            lemma_first_match_bounds(v, key, m1 + 1, m2);
            assert(m2 <= m) by {
                if m < m2 {
                    assert(!key_is(entry_key_at(v, m), key));
                }
            }
            assert(pass_spec(v, key, seed, start) == Ok::<ExtractStateView, ExtractError>(
                ExtractStateView::SeenAndMore {
                    value: ok_of(extract_spec(entry_val_at(v, m1), seed)),
                    first_next_available: m2,
                },
            ));
            assert(start < m2 <= entries_len(v));
            lemma_resolve_from_last(v, key, seed, m2, m);
        },
    }
}

/// Last-matching-entry-wins: when every key is string-shaped and every
/// matching entry's value resolves, the field resolves to the recursively
/// extracted value of the **last** entry whose key matches.
pub proof fn lemma_last_match_wins(v: EmissionView, key: Seq<char>, seed: ShapeHintView, m: int)
    requires
        v matches EmissionView::Record(_) || v matches EmissionView::Assoc(_),
        first_bad_key_from(v, 0) is None,
        0 <= m < entries_len(v),
        key_is(entry_key_at(v, m), key),
        forall|j: int| m < j < entries_len(v) ==> !(#[trigger] key_is(entry_key_at(v, j), key)),
        forall|j: int|
            0 <= j < entries_len(v) && #[trigger] key_is(entry_key_at(v, j), key)
                ==> extract_spec(entry_val_at(v, j), seed) is Ok,
    ensures
        resolve_field_spec(v, key, seed) == extract_spec(entry_val_at(v, m), seed),
{
    lemma_resolve_from_last(v, key, seed, 0, m);
}

/// The entries inside a successful field resolution list.
pub open spec fn entries_of(r: Result<Seq<(Seq<char>, EmissionView)>, ExtractError>) -> Seq<
    (Seq<char>, EmissionView),
> {
    match r {
        Ok(es) => es,
        Err(_) => arbitrary(),
    }
}

/// The error inside a failed extraction result.
pub open spec fn err_of<T>(r: Result<T, ExtractError>) -> ExtractError {
    match r {
        Err(e) => e,
        Ok(_) => arbitrary(),
    }
}

/// The entry list of a successfully extracted record.
pub open spec fn record_of(r: Result<EmissionView, ExtractError>) -> Seq<
    (Seq<char>, EmissionView),
> {
    match ok_of(r) {
        EmissionView::Record(es) => es,
        _ => arbitrary(),
    }
}

proof fn lemma_fields_from_characterized(
    v: EmissionView,
    names: Seq<Seq<char>>,
    j: int,
    acc: Seq<(Seq<char>, EmissionView)>,
)
    requires
        0 <= j <= names.len(),
    ensures
        ({
            let fr = crate::fields_from_spec(v, names, j, acc);
            &&& (fr is Ok ==> entries_of(fr).len() == acc.len() + names.len() - j)
            &&& (forall|k: int|
                fr is Ok && 0 <= k < acc.len() ==> #[trigger] entries_of(fr)[k] == acc[k])
            &&& (forall|idx: int|
                fr is Ok && j <= idx < names.len() ==> #[trigger] resolve_field_spec(
                    v,
                    names[idx],
                    ShapeHintView::Any,
                ) is Ok)
            &&& (forall|k: int|
                fr is Ok && acc.len() <= k < entries_of(fr).len() ==> #[trigger] entries_of(fr)[k]
                    == (
                    names[j + k - acc.len()],
                    ok_of(resolve_field_spec(v, names[j + k - acc.len()], ShapeHintView::Any)),
                ))
            &&& (fr is Err ==> exists|idx: int|
                j <= idx < names.len() && #[trigger] resolve_field_spec(
                    v,
                    names[idx],
                    ShapeHintView::Any,
                ) == Err::<EmissionView, ExtractError>(err_of(fr)))
        }),
    decreases names.len() - j,
{
    let fr = crate::fields_from_spec(v, names, j, acc);
    if j < names.len() {
        match resolve_field_spec(v, names[j], ShapeHintView::Any) {
            Err(e) => {
                assert(fr == Err::<Seq<(Seq<char>, EmissionView)>, ExtractError>(e));
                assert(j <= j < names.len() && resolve_field_spec(v, names[j], ShapeHintView::Any)
                    == Err::<EmissionView, ExtractError>(err_of(fr)));
            },
            Ok(val) => {
                let acc2 = acc.push((names[j], val));
                lemma_fields_from_characterized(v, names, j + 1, acc2);
                let f2 = crate::fields_from_spec(v, names, j + 1, acc2);
                assert(fr == f2);
                if f2 is Ok {
                    assert forall|k: int| 0 <= k < acc.len() implies #[trigger] entries_of(fr)[k]
                        == acc[k] by {
                        assert(entries_of(f2)[k] == acc2[k]);
                    }
                    assert forall|idx: int| j <= idx < names.len() implies #[trigger]
                        resolve_field_spec(v, names[idx], ShapeHintView::Any) is Ok by {
                        if idx == j {
                            assert(resolve_field_spec(v, names[j], ShapeHintView::Any) == Ok::<
                                EmissionView,
                                ExtractError,
                            >(val));
                        }
                    }
                    assert forall|k: int|
                        acc.len() <= k < entries_of(fr).len() implies #[trigger] entries_of(fr)[k]
                        == (
                        names[j + k - acc.len()],
                        ok_of(resolve_field_spec(v, names[j + k - acc.len()], ShapeHintView::Any)),
                    ) by {
                        if k == acc.len() {
                            assert(entries_of(f2)[k] == acc2[k]);
                            assert(acc2[k] == (names[j], val));
                            assert(j + k - acc.len() == j);
                            assert(resolve_field_spec(v, names[j], ShapeHintView::Any) == Ok::<
                                EmissionView,
                                ExtractError,
                            >(val));
                        } else {
                            let idx2 = j + 1 + k - acc2.len();
                            assert(entries_of(f2)[k] == (
                                names[idx2],
                                ok_of(resolve_field_spec(v, names[idx2], ShapeHintView::Any)),
                            ));
                            assert(idx2 == j + k - acc.len());
                        }
                    }
                } else {
                    let idx = choose|idx: int|
                        j + 1 <= idx < names.len() && #[trigger] resolve_field_spec(
                            v,
                            names[idx],
                            ShapeHintView::Any,
                        ) == Err::<EmissionView, ExtractError>(err_of(f2));
                    assert(j <= idx < names.len() && resolve_field_spec(
                        v,
                        names[idx],
                        ShapeHintView::Any,
                    ) == Err::<EmissionView, ExtractError>(err_of(fr)));
                }
            },
        }
    }
}

/// What a named-field pull returns: one entry per requested name, in
/// request order, each field resolved independently of the others; or the
/// error that some requested field's resolution ran into.
pub proof fn lemma_named_fields_pull(v: EmissionView, names: Seq<Seq<char>>)
    ensures
        ({
            let r = extract_spec(v, ShapeHintView::NamedFields(names));
            &&& (r is Ok ==> ok_of(r) matches EmissionView::Record(_))
            &&& (r is Ok ==> record_of(r).len() == names.len())
            &&& (forall|k: int|
                r is Ok && 0 <= k < names.len() ==> #[trigger] resolve_field_spec(
                    v,
                    names[k],
                    ShapeHintView::Any,
                ) is Ok)
            &&& (forall|k: int|
                r is Ok && 0 <= k < names.len() ==> #[trigger] record_of(r)[k] == (
                    names[k],
                    ok_of(resolve_field_spec(v, names[k], ShapeHintView::Any)),
                ))
            &&& (r is Err ==> exists|idx: int|
                0 <= idx < names.len() && #[trigger] resolve_field_spec(
                    v,
                    names[idx],
                    ShapeHintView::Any,
                ) == Err::<EmissionView, ExtractError>(err_of(r)))
        }),
{
    let acc0 = Seq::<(Seq<char>, EmissionView)>::empty();
    lemma_fields_from_characterized(v, names, 0, acc0);
    let fr = crate::fields_from_spec(v, names, 0, acc0);
    let r = extract_spec(v, ShapeHintView::NamedFields(names));
    if fr is Ok {
        assert(r == Ok::<EmissionView, ExtractError>(EmissionView::Record(entries_of(fr))));
        assert(record_of(r) == entries_of(fr));
        assert forall|k: int| r is Ok && 0 <= k < names.len() implies #[trigger] record_of(r)[k]
            == (names[k], ok_of(resolve_field_spec(v, names[k], ShapeHintView::Any))) by {
            assert(entries_of(fr)[k] == (
                names[0 + k - acc0.len()],
                ok_of(resolve_field_spec(v, names[0 + k - acc0.len()], ShapeHintView::Any)),
            ));
        }
    } else {
        assert(r == Err::<EmissionView, ExtractError>(err_of(fr)));
        let idx = choose|idx: int|
            0 <= idx < names.len() && #[trigger] resolve_field_spec(
                v,
                names[idx],
                ShapeHintView::Any,
            ) == Err::<EmissionView, ExtractError>(err_of(fr));
        assert(0 <= idx < names.len() && resolve_field_spec(v, names[idx], ShapeHintView::Any)
            == Err::<EmissionView, ExtractError>(err_of(r)));
    }
}

proof fn lemma_consistent_pass_from(
    v: EmissionView,
    key: Seq<char>,
    seed: ShapeHintView,
    i: int,
    st: ExtractStateView,
    start: int,
)
    requires
        0 <= i,
        start == 0 || key_is(entry_key_at(v, start), key),
    ensures
        pass_from_spec(v, key, seed, i, st, start) != Err::<ExtractStateView, ExtractError>(
            ExtractError::InconsistentEmission,
        ),
    decreases v, 2int, entries_len(v) - i,
{
    if 0 <= i && i < entries_len(v) {
        crate::map_access::lemma_entry_val_smaller(v, i);
        lemma_consistent_extract(entry_val_at(v, i), seed);
        match scan_step_spec(
            st,
            entry_key_at(v, i),
            extract_spec(entry_val_at(v, i), seed),
            key,
            i,
            start,
        ) {
            Ok(st2) => {
                lemma_consistent_pass_from(v, key, seed, i + 1, st2, start);
            },
            Err(_) => {
            },
        }
    }
}

proof fn lemma_consistent_resolve_from(
    v: EmissionView,
    key: Seq<char>,
    seed: ShapeHintView,
    start: int,
)
    requires
        0 <= start,
        start == 0 || key_is(entry_key_at(v, start), key),
    ensures
        resolve_field_from_spec(v, key, seed, start) != Err::<EmissionView, ExtractError>(
            ExtractError::InconsistentEmission,
        ),
    decreases v, 6int, entries_len(v) - start,
{
    lemma_consistent_pass_from(v, key, seed, 0, ExtractStateView::NotSeen, start);
    if v matches EmissionView::Record(_) || v matches EmissionView::Assoc(_) {
        assert(pass_spec(v, key, seed, start) == pass_from_spec(
            v,
            key,
            seed,
            0,
            ExtractStateView::NotSeen,
            start,
        ));
        match pass_from_spec(v, key, seed, 0, ExtractStateView::NotSeen, start) {
            Ok(ExtractStateView::SeenAndMore { value, first_next_available }) => {
                if start < first_next_available <= entries_len(v) {
                    lemma_pass_from_sam(
                        v,
                        key,
                        seed,
                        0,
                        ExtractStateView::NotSeen,
                        start,
                        value,
                        first_next_available,
                    );
                    lemma_consistent_resolve_from(v, key, seed, first_next_available);
                }
            },
            _ => {
            },
        }
    }
}

proof fn lemma_consistent_fields_from(
    v: EmissionView,
    names: Seq<Seq<char>>,
    j: int,
    acc: Seq<(Seq<char>, EmissionView)>,
)
    ensures
        crate::fields_from_spec(v, names, j, acc) != Err::<
            Seq<(Seq<char>, EmissionView)>,
            ExtractError,
        >(ExtractError::InconsistentEmission),
    decreases v, 8int, names.len() - j,
{
    if j < names.len() {
        lemma_consistent_resolve_from(v, names[j], ShapeHintView::Any, 0);
        match crate::map_access::resolve_field_spec(v, names[j], ShapeHintView::Any) {
            Ok(val) => {
                lemma_consistent_fields_from(v, names, j + 1, acc.push((names[j], val)));
            },
            Err(_) => {
            },
        }
    }
}

proof fn lemma_consistent_passthrough(v: EmissionView, seed: ShapeHintView)
    ensures
        crate::general::passthrough_spec(v, seed) != Err::<EmissionView, ExtractError>(
            ExtractError::InconsistentEmission,
        ),
    decreases v, 9int, 0int,
{
    match v {
        EmissionView::Present(e) => {
            lemma_consistent_extract(*e, seed);
        },
        EmissionView::Wrapped(e) => {
            lemma_consistent_extract(*e, seed);
        },
        EmissionView::TaggedWrapped(_, e) => {
            lemma_consistent_extract(*e, seed);
        },
        _ => {
        },
    }
}

/// A value-backed emitter re-emits the same entries on every re-drive, so
/// extraction from it never reports an inconsistent emission: that error is
/// reserved for sources whose repeated self-descriptions disagree.
pub proof fn lemma_consistent_extract(v: EmissionView, hint: ShapeHintView)
    ensures
        extract_spec(v, hint) != Err::<EmissionView, ExtractError>(
            ExtractError::InconsistentEmission,
        ),
    decreases v, 10int, 0int,
{
    match hint {
        ShapeHintView::NamedFields(names) => {
            lemma_consistent_fields_from(v, names, 0, Seq::empty());
        },
        ShapeHintView::Optional(inner) => {
            lemma_consistent_passthrough(v, *inner);
        },
        ShapeHintView::Any => {
            lemma_consistent_passthrough(v, ShapeHintView::Any);
        },
    }
}

/// Absence mapping: a requested field that no entry matches resolves as
/// `Absent`; the receiver's own optional or required handling then takes
/// over.
pub proof fn lemma_absent_field_resolves_absent(
    v: EmissionView,
    key: Seq<char>,
    seed: ShapeHintView,
)
    requires
        v matches EmissionView::Record(_) || v matches EmissionView::Assoc(_),
        first_bad_key_from(v, 0) is None,
        first_match_from(v, key, 0) is None,
    ensures
        resolve_field_spec(v, key, seed) == Ok::<EmissionView, ExtractError>(EmissionView::Absent),
{
    assert forall|j: int|
        0 <= j < entries_len(v) && #[trigger] key_is(entry_key_at(v, j), key) implies extract_spec(
        entry_val_at(v, j),
        seed,
    ) is Ok by {
        lemma_first_match_none(v, key, 0, j);
    }
    lemma_pass_from_not_seen(v, key, seed, 0, 0);
}

} // verus!
