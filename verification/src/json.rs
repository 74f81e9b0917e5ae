//! The boundary to `serde_json`: parsed JSON documents are carried as
//! `serde_json::Value`, which is opaque here. Each value is abstracted by
//! [`json_model`] into the spec-level tree [`JsonVal`], and the accessors
//! used by the manifest readers are specified against that tree.

use vstd::prelude::*;

verus! {

/// The spec-level shape of a JSON document. A number is abstracted to its
/// `u64` value when it is a non-negative integer in range, and to `None`
/// otherwise (the manifests read here only use sizes and version numbers).
pub enum JsonVal {
    Null,
    Bool(bool),
    Num(Option<u64>),
    Str(Seq<char>),
    Arr(Seq<JsonVal>),
    Obj(Map<Seq<char>, JsonVal>),
}

/// The string characters of a JSON value, when it is a string.
pub open spec fn str_val(j: JsonVal) -> Seq<char>
    recommends
        j is Str,
{
    match j {
        JsonVal::Str(s) => s,
        _ => Seq::empty(),
    }
}

/// The integer of a JSON value: `Some` exactly when the value is a number
/// that is a non-negative integer representable in 64 bits.
pub open spec fn num_val(j: JsonVal) -> Option<u64> {
    match j {
        JsonVal::Num(o) => o,
        _ => None,
    }
}

#[verifier::external_type_specification]
#[verifier::external_body]
pub struct ExValue(serde_json::Value);

/// The spec-level tree a `serde_json::Value` holds.
pub uninterp spec fn json_model(v: serde_json::Value) -> JsonVal;

/// What `serde_json` parses a byte string into: a function of the bytes
/// alone; `None` when the bytes are not a valid JSON document.
pub uninterp spec fn json_of(s: Seq<u8>) -> Option<JsonVal>;

/// Relies on `serde_json::from_slice::<Value>`: parsing either fails or
/// yields the document the bytes denote, a function of the bytes alone.
#[verifier::external_body]
pub(crate) fn parse_json_bytes(b: &Vec<u8>) -> (r: Option<serde_json::Value>)
    ensures
        r is Some <==> json_of(b@) is Some,
        r matches Some(v) ==> Some(json_model(v)) == json_of(b@),
{
    serde_json::from_slice(b.as_slice()).ok()
}

/// Relies on `serde_json::Value::get` with a string index: on an object it
/// looks the member up by key, on anything else it returns `None`.
#[verifier::external_body]
pub(crate) fn json_get<'a>(v: &'a serde_json::Value, key: &str) -> (r: Option<
    &'a serde_json::Value,
>)
    ensures
        match json_model(*v) {
            JsonVal::Obj(m) => {
                &&& r is Some <==> m.contains_key(key@)
                &&& (r matches Some(x) ==> m.contains_key(key@) && json_model(*x) == m[key@])
            },
            _ => r is None,
        },
{
    v.get(key)
}

/// Relies on `serde_json::Value::is_object`: true exactly on objects.
#[verifier::external_body]
pub(crate) fn json_is_object(v: &serde_json::Value) -> (r: bool)
    ensures
        r == (json_model(*v) is Obj),
{
    v.is_object()
}

/// Relies on `serde_json::Value::as_str`: `Some` exactly on strings.
#[verifier::external_body]
pub(crate) fn json_as_str<'a>(v: &'a serde_json::Value) -> (r: Option<&'a str>)
    ensures
        r is Some <==> json_model(*v) is Str,
        r matches Some(s) ==> json_model(*v) == JsonVal::Str(s@),
{
    v.as_str()
}

/// Relies on `serde_json::Value::as_u64`: `Some(n)` exactly when the value
/// is a number holding the non-negative 64-bit integer `n`.
#[verifier::external_body]
pub(crate) fn json_as_u64(v: &serde_json::Value) -> (r: Option<u64>)
    ensures
        r == num_val(json_model(*v)),
{
    v.as_u64()
}

/// Relies on `serde_json::Value::as_array`: `Some` exactly on arrays, with
/// the elements in document order.
#[verifier::external_body]
pub(crate) fn json_as_array<'a>(v: &'a serde_json::Value) -> (r: Option<&'a Vec<serde_json::Value>>)
    ensures
        match json_model(*v) {
            JsonVal::Arr(s) => r matches Some(a) && a@.len() == s.len() && (forall|i: int|
                0 <= i < s.len() ==> #[trigger] json_model(a@[i]) == s[i]),
            _ => r is None,
        },
{
    v.as_array()
}

/// Relies on `serde_json::Value::as_object` and `serde_json::Map::iter`:
/// on an object it yields every member exactly once (the backing map keeps
/// one entry per key), on anything else it returns `None`. Each yielded
/// key and value is a copy holding the same characters and the same tree
/// as the member it was cloned from.
#[verifier::external_body]
pub(crate) fn json_entries(v: &serde_json::Value) -> (r: Option<
    Vec<(String, serde_json::Value)>,
>)
    ensures
        match json_model(*v) {
            JsonVal::Obj(m) => r matches Some(es) && {
                &&& forall|i: int, j: int|
                    0 <= i < j < es@.len() ==> (#[trigger] es@[i].0)@ != (#[trigger] es@[j].0)@
                &&& forall|i: int|
                    0 <= i < es@.len() ==> m.contains_key((#[trigger] es@[i].0)@) && json_model(
                        es@[i].1,
                    ) == m[es@[i].0@]
                &&& forall|k: Seq<char>|
                    m.contains_key(k) ==> exists|i: int|
                        0 <= i < es@.len() && (#[trigger] es@[i].0)@ == k
            },
            _ => r is None,
        },
{
    match v.as_object() {
        Some(m) => Some(m.iter().map(|(k, x)| (k.clone(), x.clone())).collect()),
        None => None,
    }
}

} // verus!
