//! The variant bridge: a tagged single-value emission pulled as a
//! discriminated union, tag first, then exactly one nested value.

use vstd::prelude::*;

use crate::shape::Emission;
use crate::shape::ExtractError;
use crate::shape::ShapeHint;

verus! {

/// Presents a discriminated-union emission to a receiver: the tag is
/// resolved first, then the single nested value.
pub struct ThisEnumAccess<'s> {
    pub variant: &'s String,
    pub value: &'s Emission,
}

impl<'s> ThisEnumAccess<'s> {
    /// Resolve the discriminant: hands the receiver the variant's name and
    /// the access object for the one nested value.
    pub fn variant_seed(self) -> (r: (String, ThisVariantAccess<'s>))
        ensures
            r.0@ == self.variant@,
            r.1.value == self.value,
    {
        (self.variant.clone(), ThisVariantAccess { value: self.value })
    }
}

/// Resolves the payload of a discriminated-union emission. Only a variant
/// carrying exactly one nested value is supported.
pub struct ThisVariantAccess<'s> {
    pub value: &'s Emission,
}

impl<'s> ThisVariantAccess<'s> {
    /// A tag-only variant was expected: not the shape this bridge carries.
    pub fn unit_variant(self) -> (r: Result<(), ExtractError>)
        ensures
            r == Err::<(), ExtractError>(ExtractError::UnsupportedShape),
    {
        Err(ExtractError::UnsupportedShape)
    }

    /// Resolve the one nested value through the adapter entry point.
    pub fn newtype_variant_seed(self, seed: &ShapeHint) -> (r: Result<Emission, ExtractError>)
        ensures
            crate::shape::res_view(r) == crate::extract_spec(self.value@, seed@),
        decreases *self.value, 12int, 0int,
    {
        crate::extract(self.value, seed)
    }

    /// A fixed-arity tuple variant was expected: not the shape this bridge
    /// carries.
    pub fn tuple_variant(self) -> (r: Result<(), ExtractError>)
        ensures
            r == Err::<(), ExtractError>(ExtractError::UnsupportedShape),
    {
        Err(ExtractError::UnsupportedShape)
    }

    /// A named-field variant was expected: not the shape this bridge
    /// carries.
    pub fn struct_variant(self) -> (r: Result<(), ExtractError>)
        ensures
            r == Err::<(), ExtractError>(ExtractError::UnsupportedShape),
    {
        Err(ExtractError::UnsupportedShape)
    }
}

} // verus!
