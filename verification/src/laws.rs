//! The protocol's laws: encoding always yields the one-key wire shape,
//! decoding undoes encoding, and the `ok` key takes precedence over `err`
//! when a wire object carries both.

use vstd::prelude::*;
use crate::error::SpecDecodeError;
use crate::json::{embed, spec_lookup, JsonValue};
use crate::result_value::{wraps, ResultValue};
use crate::schema::MetaSchema;
use crate::types::{ApiType, ParseFromJson, ToJson};

verus! {

/// Registration is idempotent: when every name a type registers is already
/// present — as it is right after one run of [`ApiType::register`] — a
/// further run leaves the registry exactly as it was.
pub proof fn lemma_register_idempotent<S: ApiType>(
    m1: Map<Seq<char>, MetaSchema>,
    m2: Map<Seq<char>, MetaSchema>,
)
    requires
        forall|n: Seq<char>| #[trigger]
            S::spec_registered().dom().contains(n) ==> m1.dom().contains(n),
        forall|n: Seq<char>| #[trigger]
            m1.dom().contains(n) ==> m2.dom().contains(n) && m2[n] == m1[n],
        forall|n: Seq<char>| #[trigger]
            m2.dom().contains(n) ==> m1.dom().contains(n) || (
            S::spec_registered().dom().contains(n) && m2[n] == S::spec_registered()[n]),
    ensures
        m2 == m1,
{
    assert forall|n: Seq<char>| #[trigger] m2.dom().contains(n) implies m1.dom().contains(n) by {
        if !m1.dom().contains(n) {
            assert(S::spec_registered().dom().contains(n));
        }
    }
    assert(m2 =~= m1);
}

/// Encoding never fails and always yields a JSON object with exactly one
/// entry, whose key is `ok` for a success value and `err` for a failure
/// value — never both keys, never neither.
pub proof fn lemma_encode_shape<T, E>(v: ResultValue<T, E>, r: Option<JsonValue>) where
    T: ToJson,
    E: ToJson,

    requires
        v.encodes(r),
    ensures
        r matches Some(j) && j matches JsonValue::Obj(entries) && entries@.len() == 1 && (
        entries@[0].0@ == "ok"@ <==> v matches ResultValue::Success(_)) && (entries@[0].0@
            == "err"@ <==> v matches ResultValue::Failure(_)),
{
    reveal_strlit("ok");
    reveal_strlit("err");
    assert("ok"@.len() == 2 && "err"@.len() == 3);
    match v {
        ResultValue::Success(p) => {
            let pj = choose|pj: Option<JsonValue>| p.encodes(pj) && wraps(r, "ok"@, pj);
            assert(wraps(r, "ok"@, pj));
        },
        ResultValue::Failure(p) => {
            let pj = choose|pj: Option<JsonValue>| p.encodes(pj) && wraps(r, "err"@, pj);
            assert(wraps(r, "err"@, pj));
        },
    }
}

/// Round trip for a success value: whatever wire value the encoder chose for
/// `Success(p)`, decoding it restores `Success(p)` — provided the success
/// payload type's own encoding round-trips through its own decoder.
pub proof fn lemma_round_trip_success<T, E>(p: T, r: Option<JsonValue>) where
    T: ToJson + ParseFromJson,
    E: ToJson + ParseFromJson,

    requires
        ResultValue::<T, E>::Success(p).encodes(r),
        forall|pj: Option<JsonValue>| #[trigger] p.encodes(pj) ==> T::spec_decode(Some(embed(pj)))
            == Ok::<T, SpecDecodeError>(p),
    ensures
        ResultValue::<T, E>::spec_decode(r) == Ok::<ResultValue<T, E>, SpecDecodeError>(
            ResultValue::Success(p),
        ),
{
    let pj = choose|pj: Option<JsonValue>| p.encodes(pj) && wraps(r, "ok"@, pj);
    assert(wraps(r, "ok"@, pj));
    let entries = r->Some_0->Obj_0;
    assert(spec_lookup(entries@, "ok"@) == Some(embed(pj)));
    assert(T::spec_decode(Some(embed(pj))) == Ok::<T, SpecDecodeError>(p));
}

/// Round trip for a failure value, symmetric to
/// [`lemma_round_trip_success`]: the hypothesis now speaks of the failure
/// payload type's own round trip.
pub proof fn lemma_round_trip_failure<T, E>(p: E, r: Option<JsonValue>) where
    T: ToJson + ParseFromJson,
    E: ToJson + ParseFromJson,

    requires
        ResultValue::<T, E>::Failure(p).encodes(r),
        forall|pj: Option<JsonValue>| #[trigger] p.encodes(pj) ==> E::spec_decode(Some(embed(pj)))
            == Ok::<E, SpecDecodeError>(p),
    ensures
        ResultValue::<T, E>::spec_decode(r) == Ok::<ResultValue<T, E>, SpecDecodeError>(
            ResultValue::Failure(p),
        ),
{
    reveal_strlit("ok");
    reveal_strlit("err");
    assert("ok"@.len() == 2 && "err"@.len() == 3);
    let pj = choose|pj: Option<JsonValue>| p.encodes(pj) && wraps(r, "err"@, pj);
    assert(wraps(r, "err"@, pj));
    let entries = r->Some_0->Obj_0;
    assert(entries@.drop_first().len() == 0);
    assert(spec_lookup(entries@.drop_first(), "ok"@) == None::<JsonValue>);
    assert(spec_lookup(entries@, "ok"@) == None::<JsonValue>);
    assert(spec_lookup(entries@, "err"@) == Some(embed(pj)));
    assert(E::spec_decode(Some(embed(pj))) == Ok::<E, SpecDecodeError>(p));
}

/// Precedence: a wire object whose entries hold a value under `ok` decodes
/// through the success payload's decoder alone; whatever may sit under
/// `err` is ignored.
pub proof fn lemma_decode_precedence<T, E>(entries: Vec<(String, JsonValue)>, x: JsonValue) where
    T: ParseFromJson,
    E: ParseFromJson,

    requires
        spec_lookup(entries@, "ok"@) == Some(x),
    ensures
        ResultValue::<T, E>::spec_decode(Some(JsonValue::Obj(entries))) == (match T::spec_decode(
            Some(x),
        ) {
            Ok(t) => Ok::<ResultValue<T, E>, SpecDecodeError>(ResultValue::Success(t)),
            Err(pe) => Err(SpecDecodeError::PayloadDecodeFailure(
                crate::error::message_of(pe),
            )),
        }),
{
}

} // verus!
