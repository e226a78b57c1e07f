//! Structural schema descriptors for documentation consumers, and the merge
//! that builds each alternative of a union out of a payload's own descriptor
//! plus one added required property.

use vstd::prelude::*;

verus! {

/// A structural description of a type's JSON shape. An empty `ty` means the
/// schema constrains nothing by itself (the "anything" schema).
#[derive(Debug, PartialEq, Eq)]
pub struct MetaSchema {
    /// The JSON type the schema describes ("object", "integer", ...).
    pub ty: String,
    /// A discriminator property, were one declared. The two-variant value
    /// deliberately declares none: its alternatives are told apart purely by
    /// which key is present.
    pub discriminator: Option<String>,
    /// Union: a value matches some alternative.
    pub any_of: Vec<SchemaRef>,
    /// Intersection: a value matches every part.
    pub all_of: Vec<SchemaRef>,
    /// Declared properties, each with its own schema.
    pub properties: Vec<(String, SchemaRef)>,
    /// Names of the properties that must be present.
    pub required: Vec<String>,
}

/// A schema descriptor: either a reference to a schema registered under a
/// stable name, or an inline description.
#[derive(Debug, PartialEq, Eq)]
pub enum SchemaRef {
    Reference(String),
    Inline(Box<MetaSchema>),
}

impl MetaSchema {
    /// The schema that constrains nothing.
    pub fn any() -> (r: MetaSchema)
        ensures
            is_any_schema(r),
    {
        MetaSchema {
            ty: String::new(),
            discriminator: None,
            any_of: Vec::new(),
            all_of: Vec::new(),
            properties: Vec::new(),
            required: Vec::new(),
        }
    }
}

/// Holds when `m` is the "anything" schema.
pub open spec fn is_any_schema(m: MetaSchema) -> bool {
    &&& m.ty@ == Seq::<char>::empty()
    &&& m.discriminator is None
    &&& m.any_of@.len() == 0
    &&& m.all_of@.len() == 0
    &&& m.properties@.len() == 0
    &&& m.required@.len() == 0
}

/// Holds when `m` describes nothing but a single required property `key`
/// whose schema is `prop`.
pub open spec fn is_single_property_schema(
    m: MetaSchema,
    key: Seq<char>,
    prop: SchemaRef,
) -> bool {
    &&& m.ty@ == Seq::<char>::empty()
    &&& m.discriminator is None
    &&& m.any_of@.len() == 0
    &&& m.all_of@.len() == 0
    &&& m.properties@.len() == 1
    &&& m.properties@[0].0@ == key
    &&& m.properties@[0].1 == prop
    &&& m.required@.len() == 1
    &&& m.required@[0]@ == key
}

/// Holds when `r` is `base` merged with one added required property `key`
/// of schema `prop`. An inline base takes the property into its own
/// description; a named reference cannot be rewritten, so the merge wraps it
/// in an intersection with a one-property schema.
pub open spec fn merged_with(
    base: SchemaRef,
    key: Seq<char>,
    prop: SchemaRef,
    r: SchemaRef,
) -> bool {
    match base {
        SchemaRef::Inline(s) => match r {
            SchemaRef::Inline(m) => {
                &&& m.ty == s.ty
                &&& m.discriminator == s.discriminator
                &&& m.any_of@ == s.any_of@
                &&& m.all_of@ == s.all_of@
                &&& m.properties@.len() == s.properties@.len() + 1
                &&& forall|i: int|
                    0 <= i < s.properties@.len() ==> m.properties@[i] == s.properties@[i]
                &&& m.properties@.last().0@ == key
                &&& m.properties@.last().1 == prop
                &&& m.required@.len() == s.required@.len() + 1
                &&& forall|i: int| 0 <= i < s.required@.len() ==> m.required@[i] == s.required@[i]
                &&& m.required@.last()@ == key
            },
            _ => false,
        },
        SchemaRef::Reference(name) => match r {
            SchemaRef::Inline(m) => {
                &&& m.ty@ == Seq::<char>::empty()
                &&& m.discriminator is None
                &&& m.any_of@.len() == 0
                &&& m.properties@.len() == 0
                &&& m.required@.len() == 0
                &&& m.all_of@.len() == 2
                &&& m.all_of@[0] == SchemaRef::Reference(name)
                &&& (m.all_of@[1] matches SchemaRef::Inline(extra)
                    && is_single_property_schema(*extra, key, prop))
            },
            _ => false,
        },
    }
}

/// Merge `base` with one added required property `key` of schema `prop`.
pub fn merge_with_property(base: SchemaRef, key: String, prop: SchemaRef) -> (r: SchemaRef)
    ensures
        merged_with(base, key@, prop, r),
{
    match base {
        SchemaRef::Inline(mut s) => {
            s.properties.push((key.clone(), prop));
            s.required.push(key);
            SchemaRef::Inline(s)
        },
        SchemaRef::Reference(name) => {
            let mut extra = MetaSchema::any();
            extra.properties.push((key.clone(), prop));
            extra.required.push(key);
            let mut all_of: Vec<SchemaRef> = Vec::new();
            all_of.push(SchemaRef::Reference(name));
            all_of.push(SchemaRef::Inline(Box::new(extra)));
            let mut merged = MetaSchema::any();
            merged.all_of = all_of;
            SchemaRef::Inline(Box::new(merged))
        },
    }
}

} // verus!
