//! The primitive passthrough bridge: scalar, optional, unit and wrapped
//! emissions are forwarded one to one; collection shapes are rejected.

use vstd::prelude::*;

use crate::shape::Emission;
use crate::shape::EmissionView;
use crate::shape::ExtractError;
use crate::shape::ShapeHint;
use crate::shape::ShapeHintView;

verus! {

/// What passing an emission through yields: scalars, unit and absence map
/// to themselves, a unit tag to its name as a string, the three
/// single-value wrappers to the same wrapper around their nested value
/// extracted with `seed`, the receiver's declared expectation for it;
/// field collections, sequences and tuples are rejected, because without a
/// declared field list nothing says which parts to keep.
pub open spec fn passthrough_spec(v: EmissionView, seed: ShapeHintView) -> Result<
    EmissionView,
    ExtractError,
>
    decreases v, 9int, 0int,
{
    match v {
        EmissionView::Bool(_) => Ok(v),
        EmissionView::I8(_) => Ok(v),
        EmissionView::I16(_) => Ok(v),
        EmissionView::I32(_) => Ok(v),
        EmissionView::I64(_) => Ok(v),
        EmissionView::U8(_) => Ok(v),
        EmissionView::U16(_) => Ok(v),
        EmissionView::U32(_) => Ok(v),
        EmissionView::U64(_) => Ok(v),
        EmissionView::Char(_) => Ok(v),
        EmissionView::Str(_) => Ok(v),
        EmissionView::Bytes(_) => Ok(v),
        EmissionView::Absent => Ok(v),
        EmissionView::Unit => Ok(v),
        EmissionView::UnitTag(t) => Ok(EmissionView::Str(t)),
        EmissionView::Present(e) => match crate::extract_spec(*e, seed) {
            Ok(x) => Ok(EmissionView::Present(Box::new(x))),
            Err(err) => Err(err),
        },
        EmissionView::Wrapped(e) => match crate::extract_spec(*e, seed) {
            Ok(x) => Ok(EmissionView::Wrapped(Box::new(x))),
            Err(err) => Err(err),
        },
        EmissionView::TaggedWrapped(t, e) => match crate::extract_spec(*e, seed) {
            Ok(x) => Ok(EmissionView::TaggedWrapped(t, Box::new(x))),
            Err(err) => Err(err),
        },
        EmissionView::Record(_) => Err(ExtractError::UnsupportedShape),
        EmissionView::Assoc(_) => Err(ExtractError::UnsupportedShape),
        EmissionView::Sequence(_) => Err(ExtractError::UnsupportedShape),
        EmissionView::Tuple(_) => Err(ExtractError::UnsupportedShape),
    }
}

/// The primitive passthrough bridge: turns each emitted shape into the
/// extracted value a generic receiver would pull, one call per shape.
pub struct SerializerFromVisitor {}

impl SerializerFromVisitor {
    pub fn serialize_bool(self, v: bool) -> (r: Result<Emission, ExtractError>)
        ensures
            crate::shape::res_view(r) == Ok::<EmissionView, ExtractError>(EmissionView::Bool(v)),
    {
        Ok(Emission::Bool(v))
    }

    pub fn serialize_i8(self, v: i8) -> (r: Result<Emission, ExtractError>)
        ensures
            crate::shape::res_view(r) == Ok::<EmissionView, ExtractError>(EmissionView::I8(v)),
    {
        Ok(Emission::I8(v))
    }

    pub fn serialize_i16(self, v: i16) -> (r: Result<Emission, ExtractError>)
        ensures
            crate::shape::res_view(r) == Ok::<EmissionView, ExtractError>(EmissionView::I16(v)),
    {
        Ok(Emission::I16(v))
    }

    pub fn serialize_i32(self, v: i32) -> (r: Result<Emission, ExtractError>)
        ensures
            crate::shape::res_view(r) == Ok::<EmissionView, ExtractError>(EmissionView::I32(v)),
    {
        Ok(Emission::I32(v))
    }

    pub fn serialize_i64(self, v: i64) -> (r: Result<Emission, ExtractError>)
        ensures
            crate::shape::res_view(r) == Ok::<EmissionView, ExtractError>(EmissionView::I64(v)),
    {
        Ok(Emission::I64(v))
    }

    pub fn serialize_u8(self, v: u8) -> (r: Result<Emission, ExtractError>)
        ensures
            crate::shape::res_view(r) == Ok::<EmissionView, ExtractError>(EmissionView::U8(v)),
    {
        Ok(Emission::U8(v))
    }

    pub fn serialize_u16(self, v: u16) -> (r: Result<Emission, ExtractError>)
        ensures
            crate::shape::res_view(r) == Ok::<EmissionView, ExtractError>(EmissionView::U16(v)),
    {
        Ok(Emission::U16(v))
    }

    pub fn serialize_u32(self, v: u32) -> (r: Result<Emission, ExtractError>)
        ensures
            crate::shape::res_view(r) == Ok::<EmissionView, ExtractError>(EmissionView::U32(v)),
    {
        Ok(Emission::U32(v))
    }

    pub fn serialize_u64(self, v: u64) -> (r: Result<Emission, ExtractError>)
        ensures
            crate::shape::res_view(r) == Ok::<EmissionView, ExtractError>(EmissionView::U64(v)),
    {
        Ok(Emission::U64(v))
    }

    pub fn serialize_char(self, v: char) -> (r: Result<Emission, ExtractError>)
        ensures
            crate::shape::res_view(r) == Ok::<EmissionView, ExtractError>(EmissionView::Char(v)),
    {
        Ok(Emission::Char(v))
    }

    pub fn serialize_str(self, v: &String) -> (r: Result<Emission, ExtractError>)
        ensures
            crate::shape::res_view(r) == Ok::<EmissionView, ExtractError>(EmissionView::Str(v@)),
    {
        Ok(Emission::Str(v.clone()))
    }

    pub fn serialize_bytes(self, v: &Vec<u8>) -> (r: Result<Emission, ExtractError>)
        ensures
            crate::shape::res_view(r) == Ok::<EmissionView, ExtractError>(EmissionView::Bytes(v@)),
    {
        let mut out: Vec<u8> = Vec::new();
        let n = v.len();
        let mut i: usize = 0;
        while i < n
            invariant
                n == v.len(),
                i <= n,
                out@ == v@.subrange(0, i as int),
            decreases n - i,
        {
            out.push(v[i]);
            proof {
                assert(out@ =~= v@.subrange(0, i + 1));
            }
            i = i + 1;
        }
        proof {
            assert(out@ =~= v@);
        }
        Ok(Emission::Bytes(out))
    }

    pub fn serialize_none(self) -> (r: Result<Emission, ExtractError>)
        ensures
            crate::shape::res_view(r) == Ok::<EmissionView, ExtractError>(EmissionView::Absent),
    {
        Ok(Emission::Absent)
    }

    /// A present optional value: the nested value is resolved through the
    /// adapter entry point with the receiver's declared expectation for it,
    /// and presence reported around it.
    pub fn serialize_some(self, value: &Emission, seed: &ShapeHint) -> (r: Result<
        Emission,
        ExtractError,
    >)
        ensures
            crate::shape::res_view(r) == passthrough_spec(
                EmissionView::Present(Box::new(value@)),
                seed@,
            ),
        decreases *value, 14int, 0int,
    {
        match crate::extract(value, seed) {
            Ok(x) => Ok(Emission::Present(Box::new(x))),
            Err(e) => Err(e),
        }
    }

    pub fn serialize_unit(self) -> (r: Result<Emission, ExtractError>)
        ensures
            crate::shape::res_view(r) == Ok::<EmissionView, ExtractError>(EmissionView::Unit),
    {
        Ok(Emission::Unit)
    }

    pub fn serialize_unit_struct(self) -> (r: Result<Emission, ExtractError>)
        ensures
            crate::shape::res_view(r) == Ok::<EmissionView, ExtractError>(EmissionView::Unit),
    {
        Ok(Emission::Unit)
    }

    /// A unit variant is forwarded as its name, emitted as a plain string.
    pub fn serialize_unit_variant(self, variant: &String) -> (r: Result<Emission, ExtractError>)
        ensures
            crate::shape::res_view(r) == Ok::<EmissionView, ExtractError>(
                EmissionView::Str(variant@),
            ),
    {
        Ok(Emission::Str(variant.clone()))
    }

    /// A transparent wrapper: the nested value is resolved through the
    /// adapter entry point with the receiver's declared expectation for it.
    pub fn serialize_newtype_struct(self, value: &Emission, seed: &ShapeHint) -> (r: Result<
        Emission,
        ExtractError,
    >)
        ensures
            crate::shape::res_view(r) == passthrough_spec(
                EmissionView::Wrapped(Box::new(value@)),
                seed@,
            ),
        decreases *value, 14int, 0int,
    {
        match crate::extract(value, seed) {
            Ok(x) => Ok(Emission::Wrapped(Box::new(x))),
            Err(e) => Err(e),
        }
    }

    /// A discriminated-union instance: the tag is presented first, then the
    /// one nested value is resolved through the variant bridge.
    pub fn serialize_newtype_variant(self, variant: &String, value: &Emission, seed: &ShapeHint) -> (r:
        Result<Emission, ExtractError>)
        ensures
            crate::shape::res_view(r) == passthrough_spec(
                EmissionView::TaggedWrapped(variant@, Box::new(value@)),
                seed@,
            ),
        decreases *value, 16int, 0int,
    {
        let ea = crate::newtype_variant::ThisEnumAccess { variant, value };
        let (tag, va) = ea.variant_seed();
        match va.newtype_variant_seed(seed) {
            Ok(x) => Ok(Emission::TaggedWrapped(tag, Box::new(x))),
            Err(e) => Err(e),
        }
    }

    /// One self-description of `v`, driven against this serializer: the
    /// model of `Serialize::serialize` for the passthrough bridge. `seed`
    /// is the receiver's declared expectation for a nested value.
    pub fn serialize(self, v: &Emission, seed: &ShapeHint) -> (r: Result<Emission, ExtractError>)
        ensures
            crate::shape::res_view(r) == passthrough_spec(v@, seed@),
        decreases *v, 8int, 0int,
    {
        match v {
            Emission::Bool(b) => self.serialize_bool(*b),
            Emission::I8(x) => self.serialize_i8(*x),
            Emission::I16(x) => self.serialize_i16(*x),
            Emission::I32(x) => self.serialize_i32(*x),
            Emission::I64(x) => self.serialize_i64(*x),
            Emission::U8(x) => self.serialize_u8(*x),
            Emission::U16(x) => self.serialize_u16(*x),
            Emission::U32(x) => self.serialize_u32(*x),
            Emission::U64(x) => self.serialize_u64(*x),
            Emission::Char(c) => self.serialize_char(*c),
            Emission::Str(s) => self.serialize_str(s),
            Emission::Bytes(b) => self.serialize_bytes(b),
            Emission::Absent => self.serialize_none(),
            Emission::Present(e) => self.serialize_some(e, seed),
            Emission::Unit => self.serialize_unit(),
            Emission::UnitTag(t) => self.serialize_unit_variant(t),
            Emission::Wrapped(e) => self.serialize_newtype_struct(e, seed),
            Emission::TaggedWrapped(t, e) => self.serialize_newtype_variant(t, e, seed),
            Emission::Record(_) => Err(ExtractError::UnsupportedShape),
            Emission::Assoc(_) => Err(ExtractError::UnsupportedShape),
            Emission::Sequence(_) => Err(ExtractError::UnsupportedShape),
            Emission::Tuple(_) => Err(ExtractError::UnsupportedShape),
        }
    }
}

} // verus!
