//! The shapes a source value can emit, and their mathematical views.

use vstd::prelude::*;

verus! {

/// One self-description of a source value ("emitter"), as a concrete value.
///
/// A source describes itself exactly once per invocation: scalars and unit
/// shapes are terminal, `Present`/`Wrapped`/`TaggedWrapped` carry one nested
/// value, and the two field-collection shapes carry an ordered entry list.
/// `Sequence` and `Tuple` can be emitted but never pulled from: extraction
/// rejects them without looking at their elements.
#[derive(Debug, PartialEq, Eq)]
pub enum Emission {
    Bool(bool),
    I8(i8),
    I16(i16),
    I32(i32),
    I64(i64),
    U8(u8),
    U16(u16),
    U32(u32),
    U64(u64),
    Char(char),
    Str(String),
    Bytes(Vec<u8>),
    /// An optional value that is empty.
    Absent,
    /// An optional value that is present.
    Present(Box<Emission>),
    Unit,
    /// A unit shape that carries a discriminant name.
    UnitTag(String),
    /// A transparent single-value wrapper.
    Wrapped(Box<Emission>),
    /// A discriminated-union instance: a tag plus exactly one nested value.
    TaggedWrapped(String, Box<Emission>),
    /// A named-field collection whose keys are plain strings.
    Record(Vec<(String, Emission)>),
    /// A named-field collection whose keys are themselves emissions.
    Assoc(Vec<(Emission, Emission)>),
    /// A homogeneous sequence; unsupported for extraction.
    Sequence(Vec<Emission>),
    /// A fixed-arity tuple; unsupported for extraction.
    Tuple(Vec<Emission>),
}

/// The mathematical view of an [`Emission`]: strings become `Seq<char>`,
/// vectors become `Seq`.
pub enum EmissionView {
    Bool(bool),
    I8(i8),
    I16(i16),
    I32(i32),
    I64(i64),
    U8(u8),
    U16(u16),
    U32(u32),
    U64(u64),
    Char(char),
    Str(Seq<char>),
    Bytes(Seq<u8>),
    Absent,
    Present(Box<EmissionView>),
    Unit,
    UnitTag(Seq<char>),
    Wrapped(Box<EmissionView>),
    TaggedWrapped(Seq<char>, Box<EmissionView>),
    Record(Seq<(Seq<char>, EmissionView)>),
    Assoc(Seq<(EmissionView, EmissionView)>),
    Sequence(Seq<EmissionView>),
    Tuple(Seq<EmissionView>),
}

pub open spec fn record_entries_view(es: Seq<(String, Emission)>) -> Seq<(Seq<char>, EmissionView)>
    decreases es,
{
    if es.len() == 0 {
        Seq::empty()
    } else {
        record_entries_view(es.drop_last()).push((es.last().0@, es.last().1@))
    }
}

pub open spec fn assoc_entries_view(es: Seq<(Emission, Emission)>) -> Seq<(EmissionView, EmissionView)>
    decreases es,
{
    if es.len() == 0 {
        Seq::empty()
    } else {
        assoc_entries_view(es.drop_last()).push((es.last().0@, es.last().1@))
    }
}

pub open spec fn elems_view(es: Seq<Emission>) -> Seq<EmissionView>
    decreases es,
{
    if es.len() == 0 {
        Seq::empty()
    } else {
        elems_view(es.drop_last()).push(es.last()@)
    }
}

impl View for Emission {
    type V = EmissionView;

    open spec fn view(&self) -> EmissionView
        decreases self,
    {
        match self {
            Emission::Bool(b) => EmissionView::Bool(*b),
            Emission::I8(v) => EmissionView::I8(*v),
            Emission::I16(v) => EmissionView::I16(*v),
            Emission::I32(v) => EmissionView::I32(*v),
            Emission::I64(v) => EmissionView::I64(*v),
            Emission::U8(v) => EmissionView::U8(*v),
            Emission::U16(v) => EmissionView::U16(*v),
            Emission::U32(v) => EmissionView::U32(*v),
            Emission::U64(v) => EmissionView::U64(*v),
            Emission::Char(c) => EmissionView::Char(*c),
            Emission::Str(s) => EmissionView::Str(s@),
            Emission::Bytes(b) => EmissionView::Bytes(b@),
            Emission::Absent => EmissionView::Absent,
            Emission::Present(e) => EmissionView::Present(Box::new((**e)@)),
            Emission::Unit => EmissionView::Unit,
            Emission::UnitTag(s) => EmissionView::UnitTag(s@),
            Emission::Wrapped(e) => EmissionView::Wrapped(Box::new((**e)@)),
            Emission::TaggedWrapped(t, e) => EmissionView::TaggedWrapped(t@, Box::new((**e)@)),
            Emission::Record(es) => EmissionView::Record(record_entries_view(es@)),
            Emission::Assoc(es) => EmissionView::Assoc(assoc_entries_view(es@)),
            Emission::Sequence(es) => EmissionView::Sequence(elems_view(es@)),
            Emission::Tuple(es) => EmissionView::Tuple(elems_view(es@)),
        }
    }
}

pub broadcast proof fn lemma_record_entries_view_len(es: Seq<(String, Emission)>)
    ensures
        #[trigger] record_entries_view(es).len() == es.len(),
    decreases es,
{
    if es.len() > 0 {
        lemma_record_entries_view_len(es.drop_last());
        assert(es.drop_last().len() == es.len() - 1);
        assert(record_entries_view(es) == record_entries_view(es.drop_last()).push(
            (es.last().0@, es.last().1@),
        ));
    } else {
        assert(record_entries_view(es) == Seq::<(Seq<char>, EmissionView)>::empty());
    }
}

pub broadcast proof fn lemma_record_entries_view_index(es: Seq<(String, Emission)>, i: int)
    requires
        0 <= i < es.len(),
    ensures
        #[trigger] record_entries_view(es)[i] == (es[i].0@, es[i].1@),
    decreases es,
{
    lemma_record_entries_view_len(es);
    lemma_record_entries_view_len(es.drop_last());
    assert(record_entries_view(es) == record_entries_view(es.drop_last()).push(
        (es.last().0@, es.last().1@),
    ));
    if i < es.len() - 1 {
        lemma_record_entries_view_index(es.drop_last(), i);
    }
}

pub broadcast proof fn lemma_assoc_entries_view_len(es: Seq<(Emission, Emission)>)
    ensures
        #[trigger] assoc_entries_view(es).len() == es.len(),
    decreases es,
{
    if es.len() > 0 {
        lemma_assoc_entries_view_len(es.drop_last());
        assert(assoc_entries_view(es) == assoc_entries_view(es.drop_last()).push(
            (es.last().0@, es.last().1@),
        ));
    } else {
        assert(assoc_entries_view(es) == Seq::<(EmissionView, EmissionView)>::empty());
    }
}

pub broadcast proof fn lemma_assoc_entries_view_index(es: Seq<(Emission, Emission)>, i: int)
    requires
        0 <= i < es.len(),
    ensures
        #[trigger] assoc_entries_view(es)[i] == (es[i].0@, es[i].1@),
    decreases es,
{
    lemma_assoc_entries_view_len(es);
    lemma_assoc_entries_view_len(es.drop_last());
    assert(assoc_entries_view(es) == assoc_entries_view(es.drop_last()).push(
        (es.last().0@, es.last().1@),
    ));
    if i < es.len() - 1 {
        lemma_assoc_entries_view_index(es.drop_last(), i);
    }
}

pub broadcast proof fn lemma_elems_view_len(es: Seq<Emission>)
    ensures
        #[trigger] elems_view(es).len() == es.len(),
    decreases es,
{
    if es.len() > 0 {
        lemma_elems_view_len(es.drop_last());
        assert(elems_view(es) == elems_view(es.drop_last()).push(es.last()@));
    } else {
        assert(elems_view(es) == Seq::<EmissionView>::empty());
    }
}

/// The expectation a receiver declares before pulling a value.
#[derive(Debug, PartialEq, Eq)]
pub enum ShapeHint {
    /// Accept whatever shape the source emits.
    Any,
    /// Pull an optional value: absence is legitimate, and a present value
    /// is pulled with the receiver's declared expectation for it.
    Optional(Box<ShapeHint>),
    /// Pull a named-field collection, resolving exactly these fields.
    NamedFields(Vec<String>),
}

/// The mathematical view of a [`ShapeHint`].
pub enum ShapeHintView {
    Any,
    Optional(Box<ShapeHintView>),
    NamedFields(Seq<Seq<char>>),
}

pub open spec fn names_view(ns: Seq<String>) -> Seq<Seq<char>>
    decreases ns,
{
    if ns.len() == 0 {
        Seq::empty()
    } else {
        names_view(ns.drop_last()).push(ns.last()@)
    }
}

impl View for ShapeHint {
    type V = ShapeHintView;

    open spec fn view(&self) -> ShapeHintView
        decreases self,
    {
        match self {
            ShapeHint::Any => ShapeHintView::Any,
            ShapeHint::Optional(inner) => ShapeHintView::Optional(Box::new((**inner)@)),
            ShapeHint::NamedFields(ns) => ShapeHintView::NamedFields(names_view(ns@)),
        }
    }
}

pub broadcast proof fn lemma_names_view_len(ns: Seq<String>)
    ensures
        #[trigger] names_view(ns).len() == ns.len(),
    decreases ns,
{
    if ns.len() > 0 {
        lemma_names_view_len(ns.drop_last());
        assert(names_view(ns) == names_view(ns.drop_last()).push(ns.last()@));
    } else {
        assert(names_view(ns) == Seq::<Seq<char>>::empty());
    }
}

pub broadcast proof fn lemma_names_view_index(ns: Seq<String>, i: int)
    requires
        0 <= i < ns.len(),
    ensures
        #[trigger] names_view(ns)[i] == ns[i]@,
    decreases ns,
{
    lemma_names_view_len(ns);
    lemma_names_view_len(ns.drop_last());
    assert(names_view(ns) == names_view(ns.drop_last()).push(ns.last()@));
    if i < ns.len() - 1 {
        lemma_names_view_index(ns.drop_last(), i);
    }
}

/// Why an extraction failed. Every error is terminal for the current call.
#[derive(Clone, Copy, Debug, PartialEq, Eq, Structural)]
pub enum ExtractError {
    /// A sequence, an unhinted field collection, a non-string key, or an
    /// unsupported variant shape was pulled from.
    UnsupportedShape,
    /// Two invocations of the same source disagreed on structure up to the
    /// recorded resume position.
    InconsistentEmission,
    /// The receiver violated the pull protocol's call ordering.
    FieldCalledOutOfProtocol,
}

/// The view of an extraction result: `Ok` values are taken to their views,
/// errors carried through unchanged.
pub open spec fn res_view(r: Result<Emission, ExtractError>) -> Result<EmissionView, ExtractError> {
    match r {
        Ok(e) => Ok(e@),
        Err(x) => Err(x),
    }
}

} // verus!

