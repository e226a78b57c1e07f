//! The capability set that every payload type offers: a stable name, a
//! structural schema, registration of its named sub-schemas, a JSON encoding
//! and a JSON decoding. The two-variant value both consumes these
//! capabilities from its payload types and offers them to its own callers.

use vstd::prelude::*;
use crate::error::{result_view, DecodeError, SpecDecodeError};
use crate::json::JsonValue;
use crate::registry::Registry;
use crate::schema::{MetaSchema, SchemaRef};

verus! {

/// A type that takes part in schema description and registration.
pub trait ApiType: Sized {
    /// The type's stable name, used as a reference key for named schemas.
    spec fn spec_name() -> Seq<char>;

    /// Whether a containing object must carry a field of this type.
    spec fn spec_is_required() -> bool;

    /// Which schema descriptors count as this type's own description.
    spec fn schema_spec(r: SchemaRef) -> bool;

    /// The named schemas that registering this type makes present: every
    /// name in this map is in the registry afterwards, and a name not yet
    /// taken gets this map's schema.
    spec fn spec_registered() -> Map<Seq<char>, MetaSchema>;

    /// The type's stable name.
    fn name() -> (r: String)
        ensures
            r@ == Self::spec_name(),
    ;

    /// Whether a containing object must carry a field of this type.
    fn is_required() -> (r: bool)
        ensures
            r == Self::spec_is_required(),
    ;

    /// The type's schema descriptor.
    fn schema_ref() -> (r: SchemaRef)
        ensures
            Self::schema_spec(r),
    ;

    /// Idempotently register this type's named schemas: entries already
    /// present are kept untouched, every name this type registers is present
    /// afterwards, and nothing else is added.
    fn register(registry: &mut Registry)
        ensures
            forall|n: Seq<char>| #[trigger]
                old(registry)@.dom().contains(n) ==> final(registry)@.dom().contains(n)
                    && final(registry)@[n] == old(registry)@[n],
            forall|n: Seq<char>| #[trigger]
                Self::spec_registered().dom().contains(n) ==> final(registry)@.dom().contains(n),
            forall|n: Seq<char>| #[trigger]
                final(registry)@.dom().contains(n) ==> old(registry)@.dom().contains(n) || (
                Self::spec_registered().dom().contains(n) && final(registry)@[n]
                    == Self::spec_registered()[n]),
    ;
}

/// A type with a JSON encoding.
pub trait ToJson: ApiType {
    /// Which wire values count as this value's encoding.
    spec fn encodes(&self, r: Option<JsonValue>) -> bool;

    /// Encode the value. Encoding is total: it cannot fail, though a type
    /// may encode some values as no wire value at all.
    fn to_json(&self) -> (r: Option<JsonValue>)
        ensures
            self.encodes(r),
    ;
}

/// A type with a JSON decoding.
pub trait ParseFromJson: ApiType {
    /// What decoding yields on every input, absence included.
    spec fn spec_decode(v: Option<JsonValue>) -> Result<Self, SpecDecodeError>;

    /// Decode an optional wire value; absence is a distinct input state.
    fn parse_from_json(value: Option<JsonValue>) -> (r: Result<Self, DecodeError>)
        ensures
            result_view(r) == Self::spec_decode(value),
    ;
}

} // verus!
