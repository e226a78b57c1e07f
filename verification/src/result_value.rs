//! The two-variant "success or failure" value and its wire protocol: a JSON
//! object with exactly one of the keys `ok` and `err`, told apart by which
//! key is present rather than by a discriminator value.

use vstd::prelude::*;
use vstd::string::StringExecFns;
use crate::error::{message_of, DecodeError, SpecDecodeError};
use crate::json::{embed, embed_value, find_key, spec_lookup, JsonValue};
use crate::registry::Registry;
use crate::schema::{merge_with_property, merged_with, MetaSchema, SchemaRef};
use crate::types::{ApiType, ParseFromJson, ToJson};

verus! {

/// A value that holds either a success payload or a failure payload —
/// exactly one of the two, never both and never neither.
#[derive(Debug, PartialEq, Eq)]
pub enum ResultValue<T, E> {
    Success(T),
    Failure(E),
}

/// Holds when `r` is a JSON object whose single entry has key `key` and
/// carries `payload`'s wire value, with `null` standing for an absent
/// payload encoding.
pub open spec fn wraps(r: Option<JsonValue>, key: Seq<char>, payload: Option<JsonValue>) -> bool {
    match r {
        Some(j) => match j {
            JsonValue::Obj(entries) => {
                &&& entries@.len() == 1
                &&& entries@[0].0@ == key
                &&& entries@[0].1 == embed(payload)
            },
            _ => false,
        },
        None => false,
    }
}

impl<T: ApiType, E: ApiType> ApiType for ResultValue<T, E> {
    /// `result<` name of T `, ` name of E `>`.
    open spec fn spec_name() -> Seq<char> {
        "result<"@ + T::spec_name() + ", "@ + E::spec_name() + ">"@
    }

    /// A field of this type may be omitted by a containing object,
    /// independently of whether the payload types are themselves required.
    open spec fn spec_is_required() -> bool {
        false
    }

    /// An inline union of exactly two alternatives — the payload's own
    /// descriptor plus a required `ok` (or `err`) property of that same
    /// descriptor — with no discriminator declared.
    open spec fn schema_spec(r: SchemaRef) -> bool {
        match r {
            SchemaRef::Inline(s) => {
                &&& s.ty@ == "object"@
                &&& s.discriminator is None
                &&& s.all_of@.len() == 0
                &&& s.properties@.len() == 0
                &&& s.required@.len() == 0
                &&& s.any_of@.len() == 2
                &&& (exists|b: SchemaRef, p: SchemaRef|
                    T::schema_spec(b) && T::schema_spec(p) && #[trigger] merged_with(
                        b,
                        "ok"@,
                        p,
                        s.any_of@[0],
                    ))
                &&& (exists|b: SchemaRef, p: SchemaRef|
                    E::schema_spec(b) && E::schema_spec(p) && #[trigger] merged_with(
                        b,
                        "err"@,
                        p,
                        s.any_of@[1],
                    ))
            },
            _ => false,
        }
    }

    /// No entry of its own: the descriptor is always inline, so only the
    /// payload types' names end up in the registry.
    open spec fn spec_registered() -> Map<Seq<char>, MetaSchema> {
        E::spec_registered().union_prefer_right(T::spec_registered())
    }

    fn name() -> (r: String) {
        let mut r = "result<".to_owned();
        r.append(T::name().as_str());
        r.append(", ");
        r.append(E::name().as_str());
        r.append(">");
        r
    }

    fn is_required() -> (r: bool) {
        false
    }

    fn schema_ref() -> (r: SchemaRef) {
        let ok_base = T::schema_ref();
        let ok_prop = T::schema_ref();
        let ghost g_ok_base = ok_base;
        let ghost g_ok_prop = ok_prop;
        let alt_ok = merge_with_property(ok_base, "ok".to_owned(), ok_prop);
        let err_base = E::schema_ref();
        let err_prop = E::schema_ref();
        let ghost g_err_base = err_base;
        let ghost g_err_prop = err_prop;
        let alt_err = merge_with_property(err_base, "err".to_owned(), err_prop);
        let mut any_of: Vec<SchemaRef> = Vec::new();
        any_of.push(alt_ok);
        any_of.push(alt_err);
        let mut schema = MetaSchema::any();
        schema.ty = "object".to_owned();
        schema.any_of = any_of;
        let ghost g_schema = schema;
        let r = SchemaRef::Inline(Box::new(schema));
        proof {
            assert(g_schema.any_of@[0] == alt_ok);
            assert(g_schema.any_of@[1] == alt_err);
            assert(T::schema_spec(g_ok_base) && T::schema_spec(g_ok_prop) && merged_with(
                g_ok_base,
                "ok"@,
                g_ok_prop,
                g_schema.any_of@[0],
            ));
            assert(E::schema_spec(g_err_base) && E::schema_spec(g_err_prop) && merged_with(
                g_err_base,
                "err"@,
                g_err_prop,
                g_schema.any_of@[1],
            ));
        }
        r
    }

    /// Delegate to both payload types; each registers its own named schemas
    /// idempotently, so repeating this call changes nothing.
    fn register(registry: &mut Registry) {
        T::register(registry);
        let ghost mid = registry@;
        E::register(registry);
        proof {
            lemma_register_composes::<T, E>(old(registry)@, mid, registry@);
        }
    }
}

/// The composition step behind [`ApiType::register`] for the two-variant
/// value: if one registration turned `m0` into `m1` for the names of `T` and
/// a second turned `m1` into `m2` for the names of `E`, then the pair turned
/// `m0` into `m2` for the combined names.
proof fn lemma_register_composes<T: ApiType, E: ApiType>(
    m0: Map<Seq<char>, MetaSchema>,
    m1: Map<Seq<char>, MetaSchema>,
    m2: Map<Seq<char>, MetaSchema>,
)
    requires
        forall|n: Seq<char>| #[trigger]
            m0.dom().contains(n) ==> m1.dom().contains(n) && m1[n] == m0[n],
        forall|n: Seq<char>| #[trigger]
            T::spec_registered().dom().contains(n) ==> m1.dom().contains(n),
        forall|n: Seq<char>| #[trigger]
            m1.dom().contains(n) ==> m0.dom().contains(n) || (
            T::spec_registered().dom().contains(n) && m1[n] == T::spec_registered()[n]),
        forall|n: Seq<char>| #[trigger]
            m1.dom().contains(n) ==> m2.dom().contains(n) && m2[n] == m1[n],
        forall|n: Seq<char>| #[trigger]
            E::spec_registered().dom().contains(n) ==> m2.dom().contains(n),
        forall|n: Seq<char>| #[trigger]
            m2.dom().contains(n) ==> m1.dom().contains(n) || (
            E::spec_registered().dom().contains(n) && m2[n] == E::spec_registered()[n]),
    ensures
        forall|n: Seq<char>| #[trigger]
            m0.dom().contains(n) ==> m2.dom().contains(n) && m2[n] == m0[n],
        forall|n: Seq<char>| #[trigger]
            E::spec_registered().union_prefer_right(T::spec_registered()).dom().contains(n)
                ==> m2.dom().contains(n),
        forall|n: Seq<char>| #[trigger]
            m2.dom().contains(n) ==> m0.dom().contains(n) || (
            E::spec_registered().union_prefer_right(T::spec_registered()).dom().contains(n)
                && m2[n] == E::spec_registered().union_prefer_right(T::spec_registered())[n]),
{
    let r = E::spec_registered().union_prefer_right(T::spec_registered());
    assert forall|n: Seq<char>| #[trigger] r.dom().contains(n) implies m2.dom().contains(n) by {
        if T::spec_registered().dom().contains(n) {
            assert(m1.dom().contains(n));
        } else {
            assert(E::spec_registered().dom().contains(n));
        }
    }
    assert forall|n: Seq<char>| #[trigger] m2.dom().contains(n) implies m0.dom().contains(n) || (
    r.dom().contains(n) && m2[n] == r[n]) by {
        if !m0.dom().contains(n) {
            if m1.dom().contains(n) {
                assert(T::spec_registered().dom().contains(n) && m1[n]
                    == T::spec_registered()[n]);
                assert(m2[n] == m1[n]);
                assert(r[n] == T::spec_registered()[n]);
            } else {
                assert(E::spec_registered().dom().contains(n) && m2[n]
                    == E::spec_registered()[n]);
                assert(!T::spec_registered().dom().contains(n));
                assert(r[n] == E::spec_registered()[n]);
            }
        }
    }
}

impl<T: ToJson, E: ToJson> ToJson for ResultValue<T, E> {
    /// The wire value is an object with the single key `ok` around the
    /// success payload's own encoding, or the single key `err` around the
    /// failure payload's.
    open spec fn encodes(&self, r: Option<JsonValue>) -> bool {
        match *self {
            ResultValue::Success(p) => exists|pj: Option<JsonValue>| #[trigger]
                p.encodes(pj) && wraps(r, "ok"@, pj),
            ResultValue::Failure(p) => exists|pj: Option<JsonValue>| #[trigger]
                p.encodes(pj) && wraps(r, "err"@, pj),
        }
    }

    fn to_json(&self) -> (r: Option<JsonValue>) {
        match self {
            ResultValue::Success(t) => {
                let pj = t.to_json();
                let ghost gpj = pj;
                let mut entries: Vec<(String, JsonValue)> = Vec::new();
                entries.push(("ok".to_owned(), embed_value(pj)));
                let r = Some(JsonValue::Obj(entries));
                proof {
                    assert(t.encodes(gpj) && wraps(r, "ok"@, gpj));
                }
                r
            },
            ResultValue::Failure(e) => {
                let pj = e.to_json();
                let ghost gpj = pj;
                let mut entries: Vec<(String, JsonValue)> = Vec::new();
                entries.push(("err".to_owned(), embed_value(pj)));
                let r = Some(JsonValue::Obj(entries));
                proof {
                    assert(e.encodes(gpj) && wraps(r, "err"@, gpj));
                }
                r
            },
        }
    }
}

impl<T: ParseFromJson, E: ParseFromJson> ParseFromJson for ResultValue<T, E> {
    /// Absence fails with `MissingInput`; a non-object fails with
    /// `InvalidShape`; an object is read under its `ok` key first — `err` is
    /// ignored whenever `ok` is present — then under `err`; an object with
    /// neither key fails with `UnrecognizedShape`, keeping the value; a
    /// payload decode failure is forwarded by its message.
    open spec fn spec_decode(v: Option<JsonValue>) -> Result<Self, SpecDecodeError> {
        match v {
            None => Err(SpecDecodeError::MissingInput),
            Some(j) => match j {
                JsonValue::Obj(entries) => match spec_lookup(entries@, "ok"@) {
                    Some(okv) => match T::spec_decode(Some(okv)) {
                        Ok(t) => Ok(ResultValue::Success(t)),
                        Err(pe) => Err(SpecDecodeError::PayloadDecodeFailure(message_of(pe))),
                    },
                    None => match spec_lookup(entries@, "err"@) {
                        Some(errv) => match E::spec_decode(Some(errv)) {
                            Ok(e) => Ok(ResultValue::Failure(e)),
                            Err(pe) => Err(SpecDecodeError::PayloadDecodeFailure(message_of(pe))),
                        },
                        None => Err(SpecDecodeError::UnrecognizedShape(JsonValue::Obj(entries))),
                    },
                },
                _ => Err(SpecDecodeError::InvalidShape),
            },
        }
    }

    fn parse_from_json(value: Option<JsonValue>) -> (r: Result<Self, DecodeError>) {
        match value {
            None => Err(DecodeError::MissingInput),
            Some(v) => match v {
                JsonValue::Obj(mut entries) => {
                    let ok_key = "ok".to_owned();
                    match find_key(&entries, &ok_key) {
                        Some(i) => {
                            let pair = entries.remove(i);
                            match T::parse_from_json(Some(pair.1)) {
                                Ok(t) => Ok(ResultValue::Success(t)),
                                Err(pe) => Err(
                                    DecodeError::PayloadDecodeFailure(pe.into_message()),
                                ),
                            }
                        },
                        None => {
                            let err_key = "err".to_owned();
                            match find_key(&entries, &err_key) {
                                Some(i) => {
                                    let pair = entries.remove(i);
                                    match E::parse_from_json(Some(pair.1)) {
                                        Ok(e) => Ok(ResultValue::Failure(e)),
                                        Err(pe) => Err(
                                            DecodeError::PayloadDecodeFailure(pe.into_message()),
                                        ),
                                    }
                                },
                                None => Err(
                                    DecodeError::UnrecognizedShape(JsonValue::Obj(entries)),
                                ),
                            }
                        },
                    }
                },
                _ => Err(DecodeError::InvalidShape),
            },
        }
    }
}

} // verus!
