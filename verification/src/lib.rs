//! Extract a chosen subset of named fields from a self-describing value.
//!
//! A source value describes itself once per invocation through a fixed
//! push-style protocol, modelled here by [`Emission`]. A consumer pulls a
//! structured result through a pull-style protocol after declaring a
//! [`ShapeHint`]. The engine resolves each requested field by re-driving the
//! source's self-description, with last-matching-entry-wins override
//! semantics when a key occurs more than once in one emission.

use vstd::prelude::*;

mod general;
mod laws;
mod map_access;
mod newtype_variant;
mod shape;

pub use general::SerializerFromVisitor;
pub use map_access::ExtractFieldByNameSerializeStructOrMap;
pub use map_access::ExtractFieldByNameSerializer;
pub use map_access::ExtractFieldByNameState;
pub use map_access::ExtractStateView;
pub use map_access::ScanState;
pub use map_access::ScanStep;
pub use map_access::ThisMapAccess;
pub use map_access::resolve_field;
pub use map_access::scan_emission;
pub use newtype_variant::ThisEnumAccess;
pub use newtype_variant::ThisVariantAccess;
pub use shape::Emission;
pub use shape::EmissionView;
pub use shape::ExtractError;
pub use shape::ShapeHint;
pub use shape::ShapeHintView;

verus! {

/// Whether a key emission compares equal to a requested field name.
///
/// A key is compared structurally: only a string-shaped key can match.
pub open spec fn key_is(k: EmissionView, key: Seq<char>) -> bool {
    k matches EmissionView::Str(s) && s == key
}

/// The entries of the result record, resolved from `v` for the requested
/// names from index `j` on, appended to `acc`: one entry per requested name,
/// in request order, each holding the field's resolved value.
pub open spec fn fields_from_spec(
    v: EmissionView,
    names: Seq<Seq<char>>,
    j: int,
    acc: Seq<(Seq<char>, EmissionView)>,
) -> Result<Seq<(Seq<char>, EmissionView)>, ExtractError>
    decreases v, 9int, names.len() - j,
{
    if j >= names.len() {
        Ok(acc)
    } else {
        match map_access::resolve_field_spec(v, names[j], ShapeHintView::Any) {
            Err(e) => Err(e),
            Ok(val) => fields_from_spec(v, names, j + 1, acc.push((names[j], val))),
        }
    }
}

/// What extraction yields: for a named-field pull, a record of the requested
/// fields resolved with last-matching-entry-wins; otherwise the emission
/// passed through unchanged, with nested values resolved recursively and
/// collection shapes rejected.
pub open spec fn extract_spec(v: EmissionView, hint: ShapeHintView) -> Result<
    EmissionView,
    ExtractError,
>
    decreases v, 10int, 0int,
{
    match hint {
        ShapeHintView::NamedFields(names) => match fields_from_spec(v, names, 0, Seq::empty()) {
            Ok(entries) => Ok(EmissionView::Record(entries)),
            Err(e) => Err(e),
        },
        ShapeHintView::Optional(inner) => general::passthrough_spec(v, *inner),
        ShapeHintView::Any => general::passthrough_spec(v, ShapeHintView::Any),
    }
}

/// The adapter entry point, as a value: dispatches a pull request on
/// `serializable` to the right bridge, according to the receiver's declared
/// shape expectation.
pub struct DeserializerFromSerializable<'s> {
    pub serializable: &'s Emission,
}

impl<'s> DeserializerFromSerializable<'s> {
    pub fn new(serializable: &'s Emission) -> (r: Self)
        ensures
            r.serializable == serializable,
    {
        DeserializerFromSerializable { serializable }
    }

    /// A pull with no particular expectation: the emission is passed
    /// through as it comes, nested values likewise.
    pub fn deserialize_any(self) -> (r: Result<Emission, ExtractError>)
        ensures
            shape::res_view(r) == general::passthrough_spec(
                self.serializable@,
                ShapeHintView::Any,
            ),
        decreases *self.serializable, 9int, 0int,
    {
        SerializerFromVisitor {  }.serialize(self.serializable, &ShapeHint::Any)
    }

    /// A pull that declares the field names it needs: each is resolved by
    /// its own scan of the emission, in request order.
    pub fn deserialize_struct(self, fields: &Vec<String>) -> (r: Result<Emission, ExtractError>)
        ensures
            shape::res_view(r) == extract_spec(
                self.serializable@,
                ShapeHintView::NamedFields(shape::names_view(fields@)),
            ),
        decreases *self.serializable, 9int, 0int,
    {
        let ghost v = self.serializable@;
        let ghost names = shape::names_view(fields@);
        proof {
            shape::lemma_names_view_len(fields@);
        }
        let mut out: Vec<(String, Emission)> = Vec::new();
        let n = fields.len();
        let mut j: usize = 0;
        while j < n
            invariant
                v == self.serializable@,
                names == shape::names_view(fields@),
                n == fields@.len(),
                names.len() == n,
                j <= n,
                out@.len() == j,
                fields_from_spec(v, names, 0, Seq::empty()) == fields_from_spec(
                    v,
                    names,
                    j as int,
                    shape::record_entries_view(out@),
                ),
            decreases n - j,
        {
            proof {
                shape::lemma_names_view_index(fields@, j as int);
                shape::lemma_record_entries_view_len(out@);
            }
            let val = match map_access::resolve_field(
                self.serializable,
                &fields[j],
                &ShapeHint::Any,
            ) {
                Ok(x) => x,
                Err(e) => {
                    return Err(e);
                },
            };
            let ghost pre = out@;
            out.push((fields[j].clone(), val));
            proof {
                assert(out@.drop_last() =~= pre);
                assert(shape::record_entries_view(out@) == shape::record_entries_view(pre).push(
                    (fields@[j as int]@, val@),
                ));
            }
            j = j + 1;
        }
        Ok(Emission::Record(out))
    }

    /// A pull of an optional value: absence is a legitimate outcome, and a
    /// present value is resolved with `seed`, the receiver's declared
    /// expectation for what sits inside, then reported as present.
    pub fn deserialize_option(self, seed: &ShapeHint) -> (r: Result<Emission, ExtractError>)
        ensures
            shape::res_view(r) == general::passthrough_spec(self.serializable@, seed@),
        decreases *self.serializable, 9int, 0int,
    {
        SerializerFromVisitor {  }.serialize(self.serializable, seed)
    }
}

/// Extract from `source` what the receiver's `hint` asks for: the
/// top-level operation tying an emitter-capable source to a pulling
/// receiver.
pub fn extract(source: &Emission, hint: &ShapeHint) -> (r: Result<Emission, ExtractError>)
    ensures
        shape::res_view(r) == extract_spec(source@, hint@),
    decreases *source, 10int, 0int,
{
    match hint {
        ShapeHint::Any => DeserializerFromSerializable::new(source).deserialize_any(),
        ShapeHint::Optional(inner) => DeserializerFromSerializable::new(
            source,
        ).deserialize_option(inner),
        ShapeHint::NamedFields(fields) => DeserializerFromSerializable::new(
            source,
        ).deserialize_struct(fields),
    }
}

} // verus!

