//! Payload capabilities for the primitive types that the wire examples use:
//! a signed integer and a string. Both have inline schemas and register no
//! named schema of their own.

use vstd::prelude::*;
use crate::error::{DecodeError, SpecDecodeError};
use crate::json::JsonValue;
use crate::registry::Registry;
use crate::schema::{is_any_schema, MetaSchema, SchemaRef};
use crate::types::{ApiType, ParseFromJson, ToJson};

verus! {

/// Holds when `r` is an inline schema that states nothing but the JSON type
/// name `ty` — the shape of a primitive type's descriptor.
pub open spec fn is_primitive_schema(r: SchemaRef, ty: Seq<char>) -> bool {
    match r {
        SchemaRef::Inline(s) => {
            &&& s.ty@ == ty
            &&& s.discriminator is None
            &&& s.any_of@.len() == 0
            &&& s.all_of@.len() == 0
            &&& s.properties@.len() == 0
            &&& s.required@.len() == 0
        },
        _ => false,
    }
}

fn primitive_schema(ty: &str) -> (r: SchemaRef)
    ensures
        is_primitive_schema(r, ty@),
{
    let mut schema = MetaSchema::any();
    schema.ty = ty.to_owned();
    SchemaRef::Inline(Box::new(schema))
}

impl ApiType for i64 {
    open spec fn spec_name() -> Seq<char> {
        "integer"@
    }

    open spec fn spec_is_required() -> bool {
        true
    }

    open spec fn schema_spec(r: SchemaRef) -> bool {
        is_primitive_schema(r, "integer"@)
    }

    open spec fn spec_registered() -> Map<Seq<char>, MetaSchema> {
        Map::empty()
    }

    fn name() -> (r: String) {
        "integer".to_owned()
    }

    fn is_required() -> (r: bool) {
        true
    }

    fn schema_ref() -> (r: SchemaRef) {
        primitive_schema("integer")
    }

    fn register(registry: &mut Registry) {
    }
}

impl ToJson for i64 {
    /// An integer encodes as itself, always present.
    open spec fn encodes(&self, r: Option<JsonValue>) -> bool {
        r == Some(JsonValue::Int(*self))
    }

    fn to_json(&self) -> (r: Option<JsonValue>) {
        Some(JsonValue::Int(*self))
    }
}

impl ParseFromJson for i64 {
    /// Only a JSON integer decodes; absence fails with `MissingInput`, any
    /// other value with `UnrecognizedShape` carrying that value.
    open spec fn spec_decode(v: Option<JsonValue>) -> Result<Self, SpecDecodeError> {
        match v {
            None => Err(SpecDecodeError::MissingInput),
            Some(j) => match j {
                JsonValue::Int(i) => Ok(i),
                other => Err(SpecDecodeError::UnrecognizedShape(other)),
            },
        }
    }

    fn parse_from_json(value: Option<JsonValue>) -> (r: Result<Self, DecodeError>) {
        match value {
            None => Err(DecodeError::MissingInput),
            Some(j) => match j {
                JsonValue::Int(i) => Ok(i),
                other => Err(DecodeError::UnrecognizedShape(other)),
            },
        }
    }
}

impl ApiType for String {
    open spec fn spec_name() -> Seq<char> {
        "string"@
    }

    open spec fn spec_is_required() -> bool {
        true
    }

    open spec fn schema_spec(r: SchemaRef) -> bool {
        is_primitive_schema(r, "string"@)
    }

    open spec fn spec_registered() -> Map<Seq<char>, MetaSchema> {
        Map::empty()
    }

    fn name() -> (r: String) {
        "string".to_owned()
    }

    fn is_required() -> (r: bool) {
        true
    }

    fn schema_ref() -> (r: SchemaRef) {
        primitive_schema("string")
    }

    fn register(registry: &mut Registry) {
    }
}

impl ToJson for String {
    /// A string encodes as a JSON string with the same characters.
    open spec fn encodes(&self, r: Option<JsonValue>) -> bool {
        match r {
            Some(j) => match j {
                JsonValue::Str(s) => s@ == self@,
                _ => false,
            },
            None => false,
        }
    }

    fn to_json(&self) -> (r: Option<JsonValue>) {
        Some(JsonValue::Str(self.clone()))
    }
}

impl ParseFromJson for String {
    /// Only a JSON string decodes; absence fails with `MissingInput`, any
    /// other value with `UnrecognizedShape` carrying that value.
    open spec fn spec_decode(v: Option<JsonValue>) -> Result<Self, SpecDecodeError> {
        match v {
            None => Err(SpecDecodeError::MissingInput),
            Some(j) => match j {
                JsonValue::Str(s) => Ok(s),
                other => Err(SpecDecodeError::UnrecognizedShape(other)),
            },
        }
    }

    fn parse_from_json(value: Option<JsonValue>) -> (r: Result<Self, DecodeError>) {
        match value {
            None => Err(DecodeError::MissingInput),
            Some(j) => match j {
                JsonValue::Str(s) => Ok(s),
                other => Err(DecodeError::UnrecognizedShape(other)),
            },
        }
    }
}

} // verus!
