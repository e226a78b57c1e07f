//! The JSON wire value: an untyped tree of objects, arrays, strings,
//! integers, booleans and null, together with the key lookup that the
//! decoder performs on an object's entries.

use vstd::prelude::*;

verus! {

/// A JSON value as it travels over the wire. An object keeps its entries in
/// order; the decoder reads the first entry with a matching key.
#[derive(Debug, PartialEq, Eq)]
pub enum JsonValue {
    Null,
    Bool(bool),
    Int(i64),
    Str(String),
    Arr(Vec<JsonValue>),
    Obj(Vec<(String, JsonValue)>),
}

/// The value under the first entry of `s` whose key reads `k`, if any.
pub open spec fn spec_lookup(s: Seq<(String, JsonValue)>, k: Seq<char>) -> Option<JsonValue>
    decreases s.len(),
{
    if s.len() == 0 {
        None
    } else if s[0].0@ == k {
        Some(s[0].1)
    } else {
        spec_lookup(s.drop_first(), k)
    }
}

proof fn lemma_lookup_hit(s: Seq<(String, JsonValue)>, k: Seq<char>, i: int)
    requires
        0 <= i < s.len(),
        s[i].0@ == k,
        forall|j: int| 0 <= j < i ==> s[j].0@ != k,
    ensures
        spec_lookup(s, k) == Some(s[i].1),
    decreases i,
{
    if i > 0 {
        lemma_lookup_hit(s.drop_first(), k, i - 1);
    }
}

proof fn lemma_lookup_miss(s: Seq<(String, JsonValue)>, k: Seq<char>)
    requires
        forall|j: int| 0 <= j < s.len() ==> s[j].0@ != k,
    ensures
        spec_lookup(s, k) == None::<JsonValue>,
    decreases s.len(),
{
    if s.len() > 0 {
        lemma_lookup_miss(s.drop_first(), k);
    }
}

/// Index of the first entry of `entries` whose key reads like `key`, related
/// to [`spec_lookup`] so that callers know which value the index selects.
pub fn find_key(entries: &Vec<(String, JsonValue)>, key: &String) -> (r: Option<usize>)
    ensures
        match r {
            Some(i) => {
                &&& i < entries@.len()
                &&& entries@[i as int].0@ == key@
                &&& spec_lookup(entries@, key@) == Some(entries@[i as int].1)
            },
            None => spec_lookup(entries@, key@) == None::<JsonValue>,
        },
{
    let mut i: usize = 0;
    while i < entries.len()
        invariant
            i <= entries@.len(),
            forall|j: int| 0 <= j < i ==> entries@[j].0@ != key@,
        decreases entries@.len() - i,
    {
        if entries[i].0 == *key {
            proof {
                lemma_lookup_hit(entries@, key@, i as int);
            }
            return Some(i);
        }
        i += 1;
    }
    proof {
        lemma_lookup_miss(entries@, key@);
    }
    None
}

/// A payload encoder may yield no value at all; the wire still carries the
/// variant key, with `null` standing in for the absent payload.
pub open spec fn embed(o: Option<JsonValue>) -> JsonValue {
    match o {
        None => JsonValue::Null,
        Some(v) => v,
    }
}

/// Executable counterpart of [`embed`].
pub fn embed_value(o: Option<JsonValue>) -> (r: JsonValue)
    ensures
        r == embed(o),
{
    match o {
        None => JsonValue::Null,
        Some(v) => v,
    }
}

} // verus!
