//! The field-projection engine: scanning one emission for a requested key,
//! with resume and last-matching-entry-wins override semantics.

use vstd::prelude::*;

use crate::shape::Emission;
use crate::shape::EmissionView;
use crate::shape::ExtractError;
use crate::shape::ShapeHint;
use crate::shape::ShapeHintView;

verus! {

/// The per-field extraction state during one scan of an emission.
#[derive(Debug, PartialEq, Eq)]
pub enum ExtractFieldByNameState {
    /// No entry matching the requested key has been seen yet.
    NotSeen,
    /// A key emission matched; the very next value emission is the one to take.
    ShouldTakeNext,
    /// A matching entry was seen and its value resolved.
    Seen(Emission),
    /// A matching entry was resolved, and a later entry with the same key
    /// exists; a rescan from `first_next_available` will pick it up.
    SeenAndMoreOfTheSameAreAvailable {
        value: Emission,
        /// Becomes the resume position of the next scan for the same field.
        first_next_available: usize,
    },
    /// Poisoned placeholder held only inside one atomic state transition.
    Broken,
}

/// The mathematical view of an [`ExtractFieldByNameState`].
pub enum ExtractStateView {
    NotSeen,
    ShouldTakeNext,
    Seen(EmissionView),
    SeenAndMore { value: EmissionView, first_next_available: int },
    Broken,
}

impl View for ExtractFieldByNameState {
    type V = ExtractStateView;

    open spec fn view(&self) -> ExtractStateView {
        match self {
            ExtractFieldByNameState::NotSeen => ExtractStateView::NotSeen,
            ExtractFieldByNameState::ShouldTakeNext => ExtractStateView::ShouldTakeNext,
            ExtractFieldByNameState::Seen(v) => ExtractStateView::Seen(v@),
            ExtractFieldByNameState::SeenAndMoreOfTheSameAreAvailable {
                value,
                first_next_available,
            } => ExtractStateView::SeenAndMore {
                value: value@,
                first_next_available: *first_next_available as int,
            },
            ExtractFieldByNameState::Broken => ExtractStateView::Broken,
        }
    }
}

/// The view of a scan result.
pub open spec fn scan_res_view(r: Result<ExtractFieldByNameState, ExtractError>) -> Result<
    ExtractStateView,
    ExtractError,
> {
    match r {
        Ok(st) => Ok(st@),
        Err(e) => Err(e),
    }
}

/// How many entries a field-collection emission holds; 0 for any other shape.
pub open spec fn entries_len(v: EmissionView) -> int {
    match v {
        EmissionView::Record(es) => es.len() as int,
        EmissionView::Assoc(es) => es.len() as int,
        _ => 0,
    }
}

/// The key of entry `i`, as an emission: a record key is a string emission.
pub open spec fn entry_key_at(v: EmissionView, i: int) -> EmissionView {
    match v {
        EmissionView::Record(es) => EmissionView::Str(es[i].0),
        EmissionView::Assoc(es) => es[i].0,
        _ => arbitrary(),
    }
}

/// The value of entry `i`.
pub open spec fn entry_val_at(v: EmissionView, i: int) -> EmissionView {
    match v {
        EmissionView::Record(es) => es[i].1,
        EmissionView::Assoc(es) => es[i].1,
        _ => arbitrary(),
    }
}

/// The least entry index at or after `i` whose key matches `key`.
pub open spec fn first_match_from(v: EmissionView, key: Seq<char>, i: int) -> Option<int>
    decreases entries_len(v) - i,
{
    if i >= entries_len(v) {
        None
    } else if crate::key_is(entry_key_at(v, i), key) {
        Some(i)
    } else {
        first_match_from(v, key, i + 1)
    }
}

/// The least entry index at or after `i` whose key is not string-shaped.
/// The key-equality probe fails on such a key.
pub open spec fn first_bad_key_from(v: EmissionView, i: int) -> Option<int>
    decreases entries_len(v) - i,
{
    if i >= entries_len(v) {
        None
    } else if !(entry_key_at(v, i) matches EmissionView::Str(_)) {
        Some(i)
    } else {
        first_bad_key_from(v, i + 1)
    }
}

/// One step of the scan state machine, for one entry handed over as a
/// combined key and value (a record field, or an associative entry).
///
/// `vres` is what resolving the entry's value through the nested seed would
/// yield; it is consulted only on the first match.
pub open spec fn scan_step_spec(
    st: ExtractStateView,
    k: EmissionView,
    vres: Result<EmissionView, ExtractError>,
    key: Seq<char>,
    i: int,
    start: int,
) -> Result<ExtractStateView, ExtractError> {
    if i < start {
        Ok(st)
    } else if !(k matches EmissionView::Str(_)) {
        Err(ExtractError::UnsupportedShape)
    } else if crate::key_is(k, key) {
        match st {
            ExtractStateView::NotSeen => match vres {
                Ok(v) => Ok(ExtractStateView::Seen(v)),
                Err(e) => Err(e),
            },
            ExtractStateView::Seen(v) => Ok(
                ExtractStateView::SeenAndMore { value: v, first_next_available: i },
            ),
            ExtractStateView::SeenAndMore { .. } => Ok(st),
            ExtractStateView::ShouldTakeNext => Err(ExtractError::FieldCalledOutOfProtocol),
            ExtractStateView::Broken => Err(ExtractError::FieldCalledOutOfProtocol),
        }
    } else if start != 0 && i == start {
        Err(ExtractError::InconsistentEmission)
    } else {
        Ok(st)
    }
}

/// One step of the scan state machine for a key emitted on its own,
/// before its value.
pub open spec fn key_step_spec(
    st: ExtractStateView,
    k: EmissionView,
    key: Seq<char>,
    i: int,
    start: int,
) -> Result<ExtractStateView, ExtractError> {
    if i < start {
        Ok(st)
    } else if !(k matches EmissionView::Str(_)) {
        Err(ExtractError::UnsupportedShape)
    } else if crate::key_is(k, key) {
        match st {
            ExtractStateView::NotSeen => Ok(ExtractStateView::ShouldTakeNext),
            ExtractStateView::ShouldTakeNext => Ok(ExtractStateView::ShouldTakeNext),
            ExtractStateView::Seen(v) => Ok(
                ExtractStateView::SeenAndMore { value: v, first_next_available: i },
            ),
            ExtractStateView::SeenAndMore { .. } => Ok(st),
            ExtractStateView::Broken => Err(ExtractError::FieldCalledOutOfProtocol),
        }
    } else if start != 0 && i == start {
        Err(ExtractError::InconsistentEmission)
    } else {
        Ok(st)
    }
}

/// One step of the scan state machine for a value emitted after its key.
pub open spec fn value_step_spec(
    st: ExtractStateView,
    vres: Result<EmissionView, ExtractError>,
) -> Result<ExtractStateView, ExtractError> {
    match st {
        ExtractStateView::ShouldTakeNext => match vres {
            Ok(v) => Ok(ExtractStateView::Seen(v)),
            Err(e) => Err(e),
        },
        ExtractStateView::Broken => Err(ExtractError::FieldCalledOutOfProtocol),
        _ => Ok(st),
    }
}

/// An entry's value sits strictly below the collection that carries it, in
/// the well-founded order that termination measures use.
pub proof fn lemma_entry_val_smaller(v: EmissionView, i: int)
    requires
        0 <= i < entries_len(v),
    ensures
        decreases_to!(v => entry_val_at(v, i)),
{
    broadcast use vstd::seq::axiom_seq_index_decreases;

    match v {
        EmissionView::Record(es) => {
            assert(decreases_to!(v => es));
            assert(decreases_to!(es => es[i]));
            assert(decreases_to!(es[i] => es[i].1));
        }
        EmissionView::Assoc(es) => {
            assert(decreases_to!(v => es));
            assert(decreases_to!(es => es[i]));
            assert(decreases_to!(es[i] => es[i].1));
        }
        _ => {
            assert(false);
        }
    }
}

/// The scan state after the entries of `v` from index `i` on have been
/// emitted into state `st`, with nested values resolved through `seed`.
pub open spec fn pass_from_spec(
    v: EmissionView,
    key: Seq<char>,
    seed: ShapeHintView,
    i: int,
    st: ExtractStateView,
    start: int,
) -> Result<ExtractStateView, ExtractError>
    decreases v, 2int, entries_len(v) - i,
{
    if !(0 <= i < entries_len(v)) {
        Ok(st)
    } else {
        proof {
            lemma_entry_val_smaller(v, i);
        }
        match scan_step_spec(
            st,
            entry_key_at(v, i),
            crate::extract_spec(entry_val_at(v, i), seed),
            key,
            i,
            start,
        ) {
            Err(e) => Err(e),
            Ok(st2) => pass_from_spec(v, key, seed, i + 1, st2, start),
        }
    }
}

/// One full scan of `v` for `key`, resuming at `start`: the emission is
/// re-driven from the top, entries before `start` are skipped.
pub open spec fn pass_spec(
    v: EmissionView,
    key: Seq<char>,
    seed: ShapeHintView,
    start: int,
) -> Result<ExtractStateView, ExtractError>
    decreases v, 4int, 0int,
{
    if v matches EmissionView::Record(_) || v matches EmissionView::Assoc(_) {
        pass_from_spec(v, key, seed, 0, ExtractStateView::NotSeen, start)
    } else {
        Err(ExtractError::UnsupportedShape)
    }
}

/// Full resolution of one field: scans are repeated, each resuming at the
/// recorded position of the next matching entry, until no later match
/// remains; the last resolved value wins.
pub open spec fn resolve_field_from_spec(
    v: EmissionView,
    key: Seq<char>,
    seed: ShapeHintView,
    start: int,
) -> Result<EmissionView, ExtractError>
    decreases v, 6int, entries_len(v) - start,
{
    match pass_spec(v, key, seed, start) {
        Err(e) => Err(e),
        Ok(st) => match st {
            ExtractStateView::NotSeen => Ok(EmissionView::Absent),
            ExtractStateView::ShouldTakeNext => Ok(EmissionView::Absent),
            ExtractStateView::Seen(val) => Ok(val),
            ExtractStateView::SeenAndMore { value, first_next_available } => if start
                < first_next_available <= entries_len(v) {
                resolve_field_from_spec(v, key, seed, first_next_available)
            } else {
                Ok(value)
            },
            ExtractStateView::Broken => Err(ExtractError::FieldCalledOutOfProtocol),
        },
    }
}

/// What resolving field `key` of `v` through `seed` yields: the recursively
/// extracted value of the last entry whose key matches, `Absent` when none
/// does, or the first error the scans run into.
pub open spec fn resolve_field_spec(
    v: EmissionView,
    key: Seq<char>,
    seed: ShapeHintView,
) -> Result<EmissionView, ExtractError>
    decreases v, 7int, 0int,
{
    resolve_field_from_spec(v, key, seed, 0)
}

/// What pulling entry pairs out of `v` yields, given the field names still
/// to try: the first remaining field that resolves to a present value is
/// returned with it; fields that resolve as absent are skipped.
pub open spec fn next_entry_spec(
    v: EmissionView,
    names: Seq<Seq<char>>,
    start: int,
    seed: ShapeHintView,
) -> Result<Option<(Seq<char>, EmissionView)>, ExtractError>
    decreases v, 8int, names.len(),
{
    if names.len() == 0 {
        Ok(None)
    } else {
        match pass_spec(v, names[0], seed, start) {
            Err(e) => Err(e),
            Ok(st) => match st {
                ExtractStateView::NotSeen => next_entry_spec(v, names.drop_first(), 0, seed),
                ExtractStateView::ShouldTakeNext => next_entry_spec(
                    v,
                    names.drop_first(),
                    0,
                    seed,
                ),
                ExtractStateView::Seen(val) => Ok(Some((names[0], val))),
                ExtractStateView::SeenAndMore { value, .. } => Ok(Some((names[0], value))),
                ExtractStateView::Broken => Err(ExtractError::FieldCalledOutOfProtocol),
            },
        }
    }
}

/// How far one entry pull advances the cursor: how many front fields it
/// consumes, and the resume position it leaves for the field then at the
/// front. A field resolved as absent is consumed and the next one tried; a
/// resolved field is consumed unless a later duplicate remains, in which
/// case it is kept and the cursor parks on the duplicate. A failed scan
/// leaves the cursor where it stood.
pub open spec fn next_entry_cursor_spec(
    v: EmissionView,
    names: Seq<Seq<char>>,
    start: int,
    seed: ShapeHintView,
) -> (int, int)
    decreases v, 8int, names.len(),
{
    if names.len() == 0 {
        (0, start)
    } else {
        match pass_spec(v, names[0], seed, start) {
            Err(_) => (0, start),
            Ok(st) => match st {
                ExtractStateView::NotSeen => {
                    let rest = next_entry_cursor_spec(v, names.drop_first(), 0, seed);
                    (1 + rest.0, rest.1)
                },
                ExtractStateView::ShouldTakeNext => {
                    let rest = next_entry_cursor_spec(v, names.drop_first(), 0, seed);
                    (1 + rest.0, rest.1)
                },
                ExtractStateView::Seen(_) => (1, 0),
                ExtractStateView::SeenAndMore { first_next_available, .. } => (
                    0,
                    first_next_available,
                ),
                ExtractStateView::Broken => (0, start),
            },
        }
    }
}

/// The per-field scan state for drivers whose seed and resolved value
/// types are opaque to the library: the same transitions as the scanner
/// below, with the receiver's seed carried along until the first match
/// resolves it into a value.
pub enum ScanState<S, V> {
    NotSeen(S),
    ShouldTakeNext(S),
    Seen(V),
    SeenAndMoreOfTheSameAreAvailable { value: V, first_next_available: usize },
    Broken,
}

/// What one scan step asks its driver to do next.
pub enum ScanStep<S, V> {
    /// Keep scanning in this state.
    Continue(ScanState<S, V>),
    /// Resolve the current entry's value with this seed; the scan goes on
    /// in `Seen` with the result.
    Resolve(S),
    /// The scan failed.
    Fail(ExtractError),
}

/// The decision for one combined key-and-value entry at `i`, `matched`
/// telling whether its key equals the requested field name.
pub open spec fn generic_entry_step_spec<S, V>(
    st: ScanState<S, V>,
    matched: bool,
    i: int,
    start: int,
) -> ScanStep<S, V> {
    if i < start {
        ScanStep::Continue(st)
    } else if matched {
        match st {
            ScanState::NotSeen(seed) => ScanStep::Resolve(seed),
            ScanState::Seen(v) => ScanStep::Continue(
                ScanState::SeenAndMoreOfTheSameAreAvailable {
                    value: v,
                    first_next_available: i as usize,
                },
            ),
            ScanState::SeenAndMoreOfTheSameAreAvailable { value, first_next_available } => ScanStep::Continue(
                ScanState::SeenAndMoreOfTheSameAreAvailable { value, first_next_available },
            ),
            ScanState::ShouldTakeNext(_) => ScanStep::Fail(ExtractError::FieldCalledOutOfProtocol),
            ScanState::Broken => ScanStep::Fail(ExtractError::FieldCalledOutOfProtocol),
        }
    } else if start != 0 && i == start {
        ScanStep::Fail(ExtractError::InconsistentEmission)
    } else {
        ScanStep::Continue(st)
    }
}

/// The decision for a key emitted on its own at `i`.
pub open spec fn generic_key_step_spec<S, V>(
    st: ScanState<S, V>,
    matched: bool,
    i: int,
    start: int,
) -> ScanStep<S, V> {
    if i < start {
        ScanStep::Continue(st)
    } else if matched {
        match st {
            ScanState::NotSeen(seed) => ScanStep::Continue(ScanState::ShouldTakeNext(seed)),
            ScanState::ShouldTakeNext(seed) => ScanStep::Continue(ScanState::ShouldTakeNext(seed)),
            ScanState::Seen(v) => ScanStep::Continue(
                ScanState::SeenAndMoreOfTheSameAreAvailable {
                    value: v,
                    first_next_available: i as usize,
                },
            ),
            ScanState::SeenAndMoreOfTheSameAreAvailable { value, first_next_available } => ScanStep::Continue(
                ScanState::SeenAndMoreOfTheSameAreAvailable { value, first_next_available },
            ),
            ScanState::Broken => ScanStep::Fail(ExtractError::FieldCalledOutOfProtocol),
        }
    } else if start != 0 && i == start {
        ScanStep::Fail(ExtractError::InconsistentEmission)
    } else {
        ScanStep::Continue(st)
    }
}

/// The decision for the value belonging to the key emitted just before it.
pub open spec fn generic_value_step_spec<S, V>(st: ScanState<S, V>) -> ScanStep<S, V> {
    match st {
        ScanState::ShouldTakeNext(seed) => ScanStep::Resolve(seed),
        ScanState::Broken => ScanStep::Fail(ExtractError::FieldCalledOutOfProtocol),
        other => ScanStep::Continue(other),
    }
}

impl<S, V> ScanState<S, V> {
    /// Take the decision for one combined key-and-value entry.
    pub fn entry_step(self, matched: bool, current_idx: usize, start_idx: usize) -> (r: ScanStep<
        S,
        V,
    >)
        ensures
            r == generic_entry_step_spec(self, matched, current_idx as int, start_idx as int),
    {
        if current_idx < start_idx {
            return ScanStep::Continue(self);
        }
        if matched {
            match self {
                ScanState::NotSeen(seed) => ScanStep::Resolve(seed),
                ScanState::Seen(v) => ScanStep::Continue(
                    ScanState::SeenAndMoreOfTheSameAreAvailable {
                        value: v,
                        first_next_available: current_idx,
                    },
                ),
                ScanState::SeenAndMoreOfTheSameAreAvailable { value, first_next_available } => ScanStep::Continue(
                    ScanState::SeenAndMoreOfTheSameAreAvailable { value, first_next_available },
                ),
                ScanState::ShouldTakeNext(_) => ScanStep::Fail(
                    ExtractError::FieldCalledOutOfProtocol,
                ),
                ScanState::Broken => ScanStep::Fail(ExtractError::FieldCalledOutOfProtocol),
            }
        } else if start_idx != 0 && current_idx == start_idx {
            ScanStep::Fail(ExtractError::InconsistentEmission)
        } else {
            ScanStep::Continue(self)
        }
    }

    /// Take the decision for a key emitted on its own.
    pub fn key_step(self, matched: bool, current_idx: usize, start_idx: usize) -> (r: ScanStep<
        S,
        V,
    >)
        ensures
            r == generic_key_step_spec(self, matched, current_idx as int, start_idx as int),
    {
        if current_idx < start_idx {
            return ScanStep::Continue(self);
        }
        if matched {
            match self {
                ScanState::NotSeen(seed) => ScanStep::Continue(ScanState::ShouldTakeNext(seed)),
                ScanState::ShouldTakeNext(seed) => ScanStep::Continue(
                    ScanState::ShouldTakeNext(seed),
                ),
                ScanState::Seen(v) => ScanStep::Continue(
                    ScanState::SeenAndMoreOfTheSameAreAvailable {
                        value: v,
                        first_next_available: current_idx,
                    },
                ),
                ScanState::SeenAndMoreOfTheSameAreAvailable { value, first_next_available } => ScanStep::Continue(
                    ScanState::SeenAndMoreOfTheSameAreAvailable { value, first_next_available },
                ),
                ScanState::Broken => ScanStep::Fail(ExtractError::FieldCalledOutOfProtocol),
            }
        } else if start_idx != 0 && current_idx == start_idx {
            ScanStep::Fail(ExtractError::InconsistentEmission)
        } else {
            ScanStep::Continue(self)
        }
    }

    /// Take the decision for the value belonging to the key emitted just
    /// before it.
    pub fn value_step(self) -> (r: ScanStep<S, V>)
        ensures
            r == generic_value_step_spec(self),
    {
        match self {
            ScanState::ShouldTakeNext(seed) => ScanStep::Resolve(seed),
            ScanState::Broken => ScanStep::Fail(ExtractError::FieldCalledOutOfProtocol),
            other => ScanStep::Continue(other),
        }
    }
}

/// Requests a scan of one emission for one key: entries before `start_idx`
/// are skipped, the first matching entry's value is resolved through
/// `vseed`.
pub struct ExtractFieldByNameSerializer<'a> {
    pub key_to_find: &'a String,
    pub vseed: &'a ShapeHint,
    pub start_idx: usize,
}

impl<'a> ExtractFieldByNameSerializer<'a> {
    /// Begin scanning an associative emission.
    pub fn serialize_map(self) -> (r: ExtractFieldByNameSerializeStructOrMap<'a>)
        ensures
            r.key_to_find == self.key_to_find,
            r.vseed == self.vseed,
            r.start_idx == self.start_idx,
            r.current_idx == 0,
            r.state@ == ExtractStateView::NotSeen,
    {
        ExtractFieldByNameSerializeStructOrMap {
            key_to_find: self.key_to_find,
            vseed: self.vseed,
            state: ExtractFieldByNameState::NotSeen,
            current_idx: 0,
            start_idx: self.start_idx,
        }
    }

    /// Begin scanning a record emission.
    pub fn serialize_struct(self) -> (r: ExtractFieldByNameSerializeStructOrMap<'a>)
        ensures
            r.key_to_find == self.key_to_find,
            r.vseed == self.vseed,
            r.start_idx == self.start_idx,
            r.current_idx == 0,
            r.state@ == ExtractStateView::NotSeen,
    {
        ExtractFieldByNameSerializeStructOrMap {
            key_to_find: self.key_to_find,
            vseed: self.vseed,
            state: ExtractFieldByNameState::NotSeen,
            current_idx: 0,
            start_idx: self.start_idx,
        }
    }
}

/// One scan in progress over the entries of a record or associative
/// emission.
pub struct ExtractFieldByNameSerializeStructOrMap<'a> {
    pub key_to_find: &'a String,
    pub vseed: &'a ShapeHint,
    pub state: ExtractFieldByNameState,
    pub current_idx: usize,
    pub start_idx: usize,
}

impl<'a> ExtractFieldByNameSerializeStructOrMap<'a> {
    /// Take in one record field: a plain string key with its value.
    pub fn serialize_field(&mut self, key: &String, value: &Emission) -> (r: Result<
        (),
        ExtractError,
    >)
        requires
            old(self).current_idx < usize::MAX,
        ensures
            match scan_step_spec(
                old(self).state@,
                EmissionView::Str(key@),
                crate::extract_spec(value@, old(self).vseed@),
                old(self).key_to_find@,
                old(self).current_idx as int,
                old(self).start_idx as int,
            ) {
                Ok(st) => {
                    &&& r matches Ok(())
                    &&& final(self).state@ == st
                    &&& final(self).current_idx == old(self).current_idx + 1
                    &&& final(self).key_to_find == old(self).key_to_find
                    &&& final(self).vseed == old(self).vseed
                    &&& final(self).start_idx == old(self).start_idx
                },
                Err(e) => r matches Err(e2) && e2 == e,
            },
        decreases *value, 12int, 0int,
    {
        if self.current_idx >= self.start_idx {
            let matched = *key == *self.key_to_find;
            if matched {
                let mut st = ExtractFieldByNameState::Broken;
                core::mem::swap(&mut st, &mut self.state);
                match st {
                    ExtractFieldByNameState::NotSeen => {
                        match crate::extract(value, self.vseed) {
                            Ok(v) => {
                                self.state = ExtractFieldByNameState::Seen(v);
                            },
                            Err(e) => {
                                return Err(e);
                            },
                        }
                    },
                    ExtractFieldByNameState::Seen(v) => {
                        self.state = ExtractFieldByNameState::SeenAndMoreOfTheSameAreAvailable {
                            value: v,
                            first_next_available: self.current_idx,
                        };
                    },
                    ExtractFieldByNameState::SeenAndMoreOfTheSameAreAvailable {
                        value,
                        first_next_available,
                    } => {
                        self.state = ExtractFieldByNameState::SeenAndMoreOfTheSameAreAvailable {
                            value,
                            first_next_available,
                        };
                    },
                    ExtractFieldByNameState::ShouldTakeNext => {
                        return Err(ExtractError::FieldCalledOutOfProtocol);
                    },
                    ExtractFieldByNameState::Broken => {
                        return Err(ExtractError::FieldCalledOutOfProtocol);
                    },
                }
            } else if self.start_idx != 0 && self.current_idx == self.start_idx {
                return Err(ExtractError::InconsistentEmission);
            }
        }
        self.current_idx = self.current_idx + 1;
        Ok(())
    }

    /// Take in one associative entry: a key emission with its value.
    pub fn serialize_entry(&mut self, key: &Emission, value: &Emission) -> (r: Result<
        (),
        ExtractError,
    >)
        requires
            old(self).current_idx < usize::MAX,
        ensures
            match scan_step_spec(
                old(self).state@,
                key@,
                crate::extract_spec(value@, old(self).vseed@),
                old(self).key_to_find@,
                old(self).current_idx as int,
                old(self).start_idx as int,
            ) {
                Ok(st) => {
                    &&& r matches Ok(())
                    &&& final(self).state@ == st
                    &&& final(self).current_idx == old(self).current_idx + 1
                    &&& final(self).key_to_find == old(self).key_to_find
                    &&& final(self).vseed == old(self).vseed
                    &&& final(self).start_idx == old(self).start_idx
                },
                Err(e) => r matches Err(e2) && e2 == e,
            },
        decreases *value, 12int, 0int,
    {
        if self.current_idx >= self.start_idx {
            let matched: bool = match key {
                Emission::Str(s) => *s == *self.key_to_find,
                _ => {
                    return Err(ExtractError::UnsupportedShape);
                },
            };
            if matched {
                let mut st = ExtractFieldByNameState::Broken;
                core::mem::swap(&mut st, &mut self.state);
                match st {
                    ExtractFieldByNameState::NotSeen => {
                        match crate::extract(value, self.vseed) {
                            Ok(v) => {
                                self.state = ExtractFieldByNameState::Seen(v);
                            },
                            Err(e) => {
                                return Err(e);
                            },
                        }
                    },
                    ExtractFieldByNameState::Seen(v) => {
                        self.state = ExtractFieldByNameState::SeenAndMoreOfTheSameAreAvailable {
                            value: v,
                            first_next_available: self.current_idx,
                        };
                    },
                    ExtractFieldByNameState::SeenAndMoreOfTheSameAreAvailable {
                        value,
                        first_next_available,
                    } => {
                        self.state = ExtractFieldByNameState::SeenAndMoreOfTheSameAreAvailable {
                            value,
                            first_next_available,
                        };
                    },
                    ExtractFieldByNameState::ShouldTakeNext => {
                        return Err(ExtractError::FieldCalledOutOfProtocol);
                    },
                    ExtractFieldByNameState::Broken => {
                        return Err(ExtractError::FieldCalledOutOfProtocol);
                    },
                }
            } else if self.start_idx != 0 && self.current_idx == self.start_idx {
                return Err(ExtractError::InconsistentEmission);
            }
        }
        self.current_idx = self.current_idx + 1;
        Ok(())
    }

    /// Take in a key emitted on its own; its value follows separately.
    pub fn serialize_key(&mut self, key: &Emission) -> (r: Result<(), ExtractError>)
        requires
            old(self).current_idx < usize::MAX,
        ensures
            match key_step_spec(
                old(self).state@,
                key@,
                old(self).key_to_find@,
                old(self).current_idx as int,
                old(self).start_idx as int,
            ) {
                Ok(st) => {
                    &&& r matches Ok(())
                    &&& final(self).state@ == st
                    &&& final(self).current_idx == old(self).current_idx + 1
                    &&& final(self).key_to_find == old(self).key_to_find
                    &&& final(self).vseed == old(self).vseed
                    &&& final(self).start_idx == old(self).start_idx
                },
                Err(e) => r matches Err(e2) && e2 == e,
            },
    {
        if self.current_idx >= self.start_idx {
            let matched: bool = match key {
                Emission::Str(s) => *s == *self.key_to_find,
                _ => {
                    return Err(ExtractError::UnsupportedShape);
                },
            };
            if matched {
                let mut st = ExtractFieldByNameState::Broken;
                core::mem::swap(&mut st, &mut self.state);
                match st {
                    ExtractFieldByNameState::NotSeen => {
                        self.state = ExtractFieldByNameState::ShouldTakeNext;
                    },
                    ExtractFieldByNameState::ShouldTakeNext => {
                        self.state = ExtractFieldByNameState::ShouldTakeNext;
                    },
                    ExtractFieldByNameState::Seen(v) => {
                        self.state = ExtractFieldByNameState::SeenAndMoreOfTheSameAreAvailable {
                            value: v,
                            first_next_available: self.current_idx,
                        };
                    },
                    ExtractFieldByNameState::SeenAndMoreOfTheSameAreAvailable {
                        value,
                        first_next_available,
                    } => {
                        self.state = ExtractFieldByNameState::SeenAndMoreOfTheSameAreAvailable {
                            value,
                            first_next_available,
                        };
                    },
                    ExtractFieldByNameState::Broken => {
                        return Err(ExtractError::FieldCalledOutOfProtocol);
                    },
                }
            } else if self.start_idx != 0 && self.current_idx == self.start_idx {
                return Err(ExtractError::InconsistentEmission);
            }
        }
        self.current_idx = self.current_idx + 1;
        Ok(())
    }

    /// Take in the value belonging to the key emitted just before it.
    pub fn serialize_value(&mut self, value: &Emission) -> (r: Result<(), ExtractError>)
        ensures
            match value_step_spec(
                old(self).state@,
                crate::extract_spec(value@, old(self).vseed@),
            ) {
                Ok(st) => {
                    &&& r matches Ok(())
                    &&& final(self).state@ == st
                    &&& final(self).current_idx == old(self).current_idx
                    &&& final(self).key_to_find == old(self).key_to_find
                    &&& final(self).vseed == old(self).vseed
                    &&& final(self).start_idx == old(self).start_idx
                },
                Err(e) => r matches Err(e2) && e2 == e,
            },
        decreases *value, 12int, 0int,
    {
        let mut st = ExtractFieldByNameState::Broken;
        core::mem::swap(&mut st, &mut self.state);
        match st {
            ExtractFieldByNameState::ShouldTakeNext => {
                match crate::extract(value, self.vseed) {
                    Ok(v) => {
                        self.state = ExtractFieldByNameState::Seen(v);
                    },
                    Err(e) => {
                        return Err(e);
                    },
                }
            },
            ExtractFieldByNameState::Broken => {
                return Err(ExtractError::FieldCalledOutOfProtocol);
            },
            other => {
                self.state = other;
            },
        }
        Ok(())
    }

    /// Finish the scan and hand back the final state.
    pub fn end(self) -> (r: ExtractFieldByNameState)
        ensures
            r == self.state,
    {
        self.state
    }
}

/// A scan that ends parked on a later duplicate reports a sound resume
/// position: a matching entry strictly after the old resume position.
pub proof fn lemma_pass_from_sam(
    v: EmissionView,
    key: Seq<char>,
    seed: ShapeHintView,
    i: int,
    st: ExtractStateView,
    start: int,
    val: EmissionView,
    nxt: int,
)
    requires
        0 <= i,
        0 <= start,
        st matches ExtractStateView::Seen(_) ==> i > start,
        (st matches ExtractStateView::SeenAndMore { first_next_available: n0, .. } ==> start < n0
            < entries_len(v) && crate::key_is(entry_key_at(v, n0), key)),
        pass_from_spec(v, key, seed, i, st, start) == Ok::<ExtractStateView, ExtractError>(
            ExtractStateView::SeenAndMore { value: val, first_next_available: nxt },
        ),
    ensures
        start < nxt < entries_len(v),
        crate::key_is(entry_key_at(v, nxt), key),
    decreases entries_len(v) - i,
{
    if i < entries_len(v) {
        let k = entry_key_at(v, i);
        let vres = crate::extract_spec(entry_val_at(v, i), seed);
        match scan_step_spec(st, k, vres, key, i, start) {
            Ok(st2) => {
                lemma_pass_from_sam(v, key, seed, i + 1, st2, start, val, nxt);
            },
            Err(_) => {
                assert(false);
            },
        }
    }
}

/// The view of a pulled entry pair.
pub open spec fn entry_res_view(r: Result<Option<(String, Emission)>, ExtractError>) -> Result<
    Option<(Seq<char>, EmissionView)>,
    ExtractError,
> {
    match r {
        Ok(None) => Ok(None),
        Ok(Some((k, e))) => Ok(Some((k@, e@))),
        Err(e) => Err(e),
    }
}

/// Drives one emission of `source` into the field scanner: the model of the
/// source describing itself to the extracting serializer. Shapes other than
/// a record or an associative collection cannot be scanned for a field.
pub fn scan_emission<'a>(source: &Emission, ser: ExtractFieldByNameSerializer<'a>) -> (r: Result<
    ExtractFieldByNameState,
    ExtractError,
>)
    ensures
        scan_res_view(r) == pass_spec(source@, ser.key_to_find@, ser.vseed@, ser.start_idx as int),
    decreases *source, 5int, 0int,
{
    let ghost v = source@;
    let ghost key = ser.key_to_find@;
    let ghost seed = ser.vseed@;
    let ghost start = ser.start_idx as int;
    match source {
        Emission::Record(es) => {
            let mut s = ser.serialize_struct();
            let n = es.len();
            let mut i: usize = 0;
            proof {
                crate::shape::lemma_record_entries_view_len(es@);
            }
            while i < n
                invariant
                    n == es.len(),
                    i <= n,
                    v == source@,
                    *source == Emission::Record(*es),
                    v == EmissionView::Record(crate::shape::record_entries_view(es@)),
                    entries_len(v) == n,
                    s.key_to_find == ser.key_to_find,
                    s.vseed == ser.vseed,
                    s.start_idx == ser.start_idx,
                    s.current_idx == i,
                    key == ser.key_to_find@,
                    seed == ser.vseed@,
                    start == ser.start_idx as int,
                    pass_from_spec(v, key, seed, 0, ExtractStateView::NotSeen, start)
                        == pass_from_spec(v, key, seed, i as int, s.state@, start),
                decreases n - i,
            {
                proof {
                    broadcast use vstd::std_specs::vec::axiom_vec_decreases_to_view;
                    broadcast use vstd::seq::axiom_seq_index_decreases;

                    crate::shape::lemma_record_entries_view_len(es@);
                    crate::shape::lemma_record_entries_view_index(es@, i as int);
                    assert(entry_key_at(v, i as int) == EmissionView::Str(es@[i as int].0@));
                    assert(entry_val_at(v, i as int) == es@[i as int].1@);
                    assert(decreases_to!(*source => *es));
                    assert(decreases_to!(*es => es@));
                    assert(decreases_to!(es@ => es@[i as int]));
                    assert(decreases_to!(es@[i as int] => es@[i as int].1));
                }
                let pair = &es[i];
                let ghost pre = s.state@;
                match s.serialize_field(&pair.0, &pair.1) {
                    Ok(_) => {},
                    Err(e) => {
                        proof {
                            assert(pass_from_spec(v, key, seed, i as int, pre, start) == Err::<
                                ExtractStateView,
                                ExtractError,
                            >(e));
                        }
                        return Err(e);
                    },
                }
                i = i + 1;
            }
            Ok(s.end())
        },
        Emission::Assoc(es) => {
            let mut s = ser.serialize_map();
            let n = es.len();
            let mut i: usize = 0;
            proof {
                crate::shape::lemma_assoc_entries_view_len(es@);
            }
            while i < n
                invariant
                    n == es.len(),
                    i <= n,
                    v == source@,
                    *source == Emission::Assoc(*es),
                    v == EmissionView::Assoc(crate::shape::assoc_entries_view(es@)),
                    entries_len(v) == n,
                    s.key_to_find == ser.key_to_find,
                    s.vseed == ser.vseed,
                    s.start_idx == ser.start_idx,
                    s.current_idx == i,
                    key == ser.key_to_find@,
                    seed == ser.vseed@,
                    start == ser.start_idx as int,
                    pass_from_spec(v, key, seed, 0, ExtractStateView::NotSeen, start)
                        == pass_from_spec(v, key, seed, i as int, s.state@, start),
                decreases n - i,
            {
                proof {
                    broadcast use vstd::std_specs::vec::axiom_vec_decreases_to_view;
                    broadcast use vstd::seq::axiom_seq_index_decreases;

                    crate::shape::lemma_assoc_entries_view_len(es@);
                    crate::shape::lemma_assoc_entries_view_index(es@, i as int);
                    assert(entry_key_at(v, i as int) == es@[i as int].0@);
                    assert(entry_val_at(v, i as int) == es@[i as int].1@);
                    assert(decreases_to!(*source => *es));
                    assert(decreases_to!(*es => es@));
                    assert(decreases_to!(es@ => es@[i as int]));
                    assert(decreases_to!(es@[i as int] => es@[i as int].1));
                }
                let pair = &es[i];
                let ghost pre = s.state@;
                match s.serialize_entry(&pair.0, &pair.1) {
                    Ok(_) => {},
                    Err(e) => {
                        proof {
                            assert(pass_from_spec(v, key, seed, i as int, pre, start) == Err::<
                                ExtractStateView,
                                ExtractError,
                            >(e));
                        }
                        return Err(e);
                    },
                }
                i = i + 1;
            }
            Ok(s.end())
        },
        _ => Err(ExtractError::UnsupportedShape),
    }
}

/// Fully resolves one field of `source`: re-drives the emission once per
/// matching occurrence, resuming each scan at the recorded position of the
/// next match, so that the last matching entry's value wins.
pub fn resolve_field(source: &Emission, key: &String, seed: &ShapeHint) -> (r: Result<
    Emission,
    ExtractError,
>)
    ensures
        crate::shape::res_view(r) == resolve_field_spec(source@, key@, seed@),
    decreases *source, 7int, 0int,
{
    let ghost v = source@;
    let n: usize = match source {
        Emission::Record(es) => {
            proof {
                crate::shape::lemma_record_entries_view_len(es@);
            }
            es.len()
        },
        Emission::Assoc(es) => {
            proof {
                crate::shape::lemma_assoc_entries_view_len(es@);
            }
            es.len()
        },
        _ => 0,
    };
    let mut start: usize = 0;
    loop
        invariant
            v == source@,
            n as int == entries_len(v),
            start <= n,
            resolve_field_from_spec(v, key@, seed@, 0) == resolve_field_from_spec(
                v,
                key@,
                seed@,
                start as int,
            ),
        decreases n - start,
    {
        match scan_emission(
            source,
            ExtractFieldByNameSerializer { key_to_find: key, vseed: seed, start_idx: start },
        ) {
            Err(e) => {
                return Err(e);
            },
            Ok(st) => match st {
                ExtractFieldByNameState::NotSeen => {
                    return Ok(Emission::Absent);
                },
                ExtractFieldByNameState::ShouldTakeNext => {
                    return Ok(Emission::Absent);
                },
                ExtractFieldByNameState::Seen(val) => {
                    return Ok(val);
                },
                ExtractFieldByNameState::SeenAndMoreOfTheSameAreAvailable {
                    value,
                    first_next_available,
                } => {
                    if start < first_next_available && first_next_available <= n {
                        start = first_next_available;
                    } else {
                        return Ok(value);
                    }
                },
                ExtractFieldByNameState::Broken => {
                    return Err(ExtractError::FieldCalledOutOfProtocol);
                },
            },
        }
    }
}

/// Pulls the declared fields of a source, one at a time: a key is offered
/// without being consumed; resolving its value pops it, unless a later
/// duplicate remains, in which case the cursor parks on that duplicate so
/// that its value can override the one just handed out.
pub struct ThisMapAccess<'s> {
    pub serializable: &'s Emission,
    pub fields: Vec<String>,
    /// Front of the field names still to resolve.
    pub field_idx: usize,
    /// Resume position within the emission for the front field; 0 unless a
    /// scan ended on a later duplicate of that field.
    pub start_idx: usize,
}

impl<'s> ThisMapAccess<'s> {
    /// The field names still to resolve, front first.
    pub open spec fn remaining(self) -> Seq<Seq<char>> {
        crate::shape::names_view(self.fields@).skip(self.field_idx as int)
    }

    /// The cursor is at rest, or parked on a known matching entry of the
    /// source for the front field.
    pub open spec fn wf(self) -> bool {
        &&& self.field_idx <= self.fields@.len()
        &&& (self.start_idx != 0 ==> {
            &&& self.field_idx < self.fields@.len()
            &&& 0 < self.start_idx
            &&& (self.start_idx as int) < entries_len(self.serializable@)
            &&& crate::key_is(
                entry_key_at(self.serializable@, self.start_idx as int),
                self.fields@[self.field_idx as int]@,
            )
        })
    }

    pub fn new(serializable: &'s Emission, fields: Vec<String>) -> (r: Self)
        ensures
            r.serializable == serializable,
            r.fields == fields,
            r.field_idx == 0,
            r.start_idx == 0,
            r.wf(),
    {
        ThisMapAccess { serializable, fields, field_idx: 0, start_idx: 0 }
    }

    /// Offer the front field's name without consuming it; nothing more to
    /// resolve when it returns nothing.
    pub fn next_key(&self) -> (r: Option<String>)
        requires
            self.wf(),
        ensures
            match r {
                None => self.remaining().len() == 0,
                Some(k) => self.remaining().len() > 0 && k@ == self.remaining()[0],
            },
    {
        if self.field_idx < self.fields.len() {
            proof {
                crate::shape::lemma_names_view_len(self.fields@);
                crate::shape::lemma_names_view_index(self.fields@, self.field_idx as int);
            }
            Some(self.fields[self.field_idx].clone())
        } else {
            proof {
                crate::shape::lemma_names_view_len(self.fields@);
            }
            None
        }
    }

    /// Resolve the front field's value through `seed` by one scan of the
    /// source, resuming at the recorded position. An absent field resolves
    /// as `Absent`; when a later duplicate of the field remains, the field
    /// is kept and the cursor parks on the duplicate.
    pub fn next_value(&mut self, seed: &ShapeHint) -> (r: Result<Emission, ExtractError>)
        requires
            old(self).wf(),
        ensures
            final(self).wf(),
            final(self).serializable == old(self).serializable,
            final(self).fields == old(self).fields,
            old(self).field_idx == old(self).fields@.len() ==> {
                &&& r matches Err(e) && e == ExtractError::FieldCalledOutOfProtocol
                &&& final(self).field_idx == old(self).field_idx
                &&& final(self).start_idx == old(self).start_idx
            },
            old(self).field_idx < old(self).fields@.len() ==> (match pass_spec(
                old(self).serializable@,
                old(self).fields@[old(self).field_idx as int]@,
                seed@,
                old(self).start_idx as int,
            ) {
                Err(e) => {
                    &&& r matches Err(e2) && e2 == e
                    &&& final(self).field_idx == old(self).field_idx
                    &&& final(self).start_idx == old(self).start_idx
                },
                Ok(st) => match st {
                    ExtractStateView::NotSeen => {
                        &&& crate::shape::res_view(r) == Ok::<EmissionView, ExtractError>(
                            EmissionView::Absent,
                        )
                        &&& final(self).field_idx == old(self).field_idx + 1
                        &&& final(self).start_idx == 0
                    },
                    ExtractStateView::ShouldTakeNext => {
                        &&& crate::shape::res_view(r) == Ok::<EmissionView, ExtractError>(
                            EmissionView::Absent,
                        )
                        &&& final(self).field_idx == old(self).field_idx + 1
                        &&& final(self).start_idx == 0
                    },
                    ExtractStateView::Seen(valv) => {
                        &&& crate::shape::res_view(r) == Ok::<EmissionView, ExtractError>(valv)
                        &&& final(self).field_idx == old(self).field_idx + 1
                        &&& final(self).start_idx == 0
                    },
                    ExtractStateView::SeenAndMore { value, first_next_available } => {
                        &&& crate::shape::res_view(r) == Ok::<EmissionView, ExtractError>(value)
                        &&& final(self).field_idx == old(self).field_idx
                        &&& final(self).start_idx as int == first_next_available
                    },
                    ExtractStateView::Broken => {
                        &&& r matches Err(e) && e == ExtractError::FieldCalledOutOfProtocol
                        &&& final(self).field_idx == old(self).field_idx
                        &&& final(self).start_idx == old(self).start_idx
                    },
                },
            }),
    {
        let n = self.fields.len();
        if self.field_idx >= n {
            return Err(ExtractError::FieldCalledOutOfProtocol);
        }
        let ghost vv = self.serializable@;
        let ghost keyv = self.fields@[self.field_idx as int]@;
        let ghost start0 = self.start_idx as int;
        let r = scan_emission(
            self.serializable,
            ExtractFieldByNameSerializer {
                key_to_find: &self.fields[self.field_idx],
                vseed: seed,
                start_idx: self.start_idx,
            },
        );
        match r {
            Err(e) => Err(e),
            Ok(st) => match st {
                ExtractFieldByNameState::NotSeen => {
                    self.field_idx = self.field_idx + 1;
                    self.start_idx = 0;
                    Ok(Emission::Absent)
                },
                ExtractFieldByNameState::ShouldTakeNext => {
                    self.field_idx = self.field_idx + 1;
                    self.start_idx = 0;
                    Ok(Emission::Absent)
                },
                ExtractFieldByNameState::Seen(valx) => {
                    self.field_idx = self.field_idx + 1;
                    self.start_idx = 0;
                    Ok(valx)
                },
                ExtractFieldByNameState::SeenAndMoreOfTheSameAreAvailable {
                    value,
                    first_next_available,
                } => {
                    proof {
                        lemma_pass_from_sam(
                            vv,
                            keyv,
                            seed@,
                            0,
                            ExtractStateView::NotSeen,
                            start0,
                            value@,
                            first_next_available as int,
                        );
                    }
                    self.start_idx = first_next_available;
                    Ok(value)
                },
                ExtractFieldByNameState::Broken => Err(ExtractError::FieldCalledOutOfProtocol),
            },
        }
    }

    /// Pull the next present entry pair: fields that resolve as absent are
    /// consumed and skipped; the first remaining field with a present value
    /// is handed out with its name.
    pub fn next_entry(&mut self, seed: &ShapeHint) -> (r: Result<
        Option<(String, Emission)>,
        ExtractError,
    >)
        requires
            old(self).wf(),
        ensures
            final(self).wf(),
            final(self).serializable == old(self).serializable,
            final(self).fields == old(self).fields,
            old(self).field_idx <= final(self).field_idx <= old(self).fields@.len(),
            r matches Ok(o) && o is None ==> final(self).field_idx == old(self).fields@.len(),
            entry_res_view(r) == next_entry_spec(
                old(self).serializable@,
                old(self).remaining(),
                old(self).start_idx as int,
                seed@,
            ),
            final(self).field_idx == old(self).field_idx + next_entry_cursor_spec(
                old(self).serializable@,
                old(self).remaining(),
                old(self).start_idx as int,
                seed@,
            ).0,
            final(self).start_idx as int == next_entry_cursor_spec(
                old(self).serializable@,
                old(self).remaining(),
                old(self).start_idx as int,
                seed@,
            ).1,
    {
        let n = self.fields.len();
        proof {
            crate::shape::lemma_names_view_len(self.fields@);
        }
        loop
            invariant
                self.serializable == old(self).serializable,
                self.fields == old(self).fields,
                n == self.fields@.len(),
                old(self).field_idx <= self.field_idx <= n,
                self.wf(),
                next_entry_spec(
                    old(self).serializable@,
                    old(self).remaining(),
                    old(self).start_idx as int,
                    seed@,
                ) == next_entry_spec(
                    self.serializable@,
                    self.remaining(),
                    self.start_idx as int,
                    seed@,
                ),
                next_entry_cursor_spec(
                    old(self).serializable@,
                    old(self).remaining(),
                    old(self).start_idx as int,
                    seed@,
                ).0 == self.field_idx - old(self).field_idx + next_entry_cursor_spec(
                    self.serializable@,
                    self.remaining(),
                    self.start_idx as int,
                    seed@,
                ).0,
                next_entry_cursor_spec(
                    old(self).serializable@,
                    old(self).remaining(),
                    old(self).start_idx as int,
                    seed@,
                ).1 == next_entry_cursor_spec(
                    self.serializable@,
                    self.remaining(),
                    self.start_idx as int,
                    seed@,
                ).1,
            decreases n - self.field_idx,
        {
            proof {
                crate::shape::lemma_names_view_len(self.fields@);
            }
            if self.field_idx >= n {
                return Ok(None);
            }
            let ghost vv = self.serializable@;
            let ghost keyv = self.fields@[self.field_idx as int]@;
            let ghost start0 = self.start_idx as int;
            proof {
                crate::shape::lemma_names_view_index(self.fields@, self.field_idx as int);
                assert(self.remaining()[0] == keyv);
                assert(self.remaining().drop_first() =~= crate::shape::names_view(
                    self.fields@,
                ).skip(self.field_idx + 1));
            }
            let r = scan_emission(
                self.serializable,
                ExtractFieldByNameSerializer {
                    key_to_find: &self.fields[self.field_idx],
                    vseed: seed,
                    start_idx: self.start_idx,
                },
            );
            match r {
                Err(e) => {
                    return Err(e);
                },
                Ok(st) => match st {
                    ExtractFieldByNameState::NotSeen => {
                        self.field_idx = self.field_idx + 1;
                        self.start_idx = 0;
                    },
                    ExtractFieldByNameState::ShouldTakeNext => {
                        self.field_idx = self.field_idx + 1;
                        self.start_idx = 0;
                    },
                    ExtractFieldByNameState::Seen(valx) => {
                        let name = self.fields[self.field_idx].clone();
                        self.field_idx = self.field_idx + 1;
                        self.start_idx = 0;
                        return Ok(Some((name, valx)));
                    },
                    ExtractFieldByNameState::SeenAndMoreOfTheSameAreAvailable {
                        value,
                        first_next_available,
                    } => {
                        proof {
                            lemma_pass_from_sam(
                                vv,
                                keyv,
                                seed@,
                                0,
                                ExtractStateView::NotSeen,
                                start0,
                                value@,
                                first_next_available as int,
                            );
                        }
                        let name = self.fields[self.field_idx].clone();
                        self.start_idx = first_next_available;
                        return Ok(Some((name, value)));
                    },
                    ExtractFieldByNameState::Broken => {
                        return Err(ExtractError::FieldCalledOutOfProtocol);
                    },
                },
            }
        }
    }
}

} // verus!
