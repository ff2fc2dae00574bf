//! The wire layer: JSON text to and from values of the model, through the
//! strason parser and serializer. The functions here are the crate's trusted
//! boundary: their contracts state what strason's source shows, and nothing
//! else in the crate is taken on faith.

use strason::Json as WireJson;
use vstd::prelude::*;

use crate::json::jval_wf;
use crate::json::JVal;
use crate::json::Json;

verus! {

/// strason's JSON value type, declared so the wrappers below can carry it.
#[verifier::external_type_specification]
#[verifier::external_body]
pub struct ExStrasonJson(WireJson);

/// The JSON text strason's serializer writes for a value of the model.
pub uninterp spec fn bytes_of(v: JVal) -> Seq<u8>;

/// The value strason's parser reads from the given bytes, if they parse:
/// the parse result depends on the bytes alone.
pub uninterp spec fn parse_of(b: Seq<u8>) -> Option<JVal>;

/// Converts a value of the model into strason's representation. Relies on
/// strason's `From` impls and `from_str`: each variant maps to the same JSON
/// value, and a well-formed number text parses to a number holding exactly
/// that text.
#[verifier::external_body]
fn to_wire(j: &Json) -> strason::Json
    requires
        jval_wf(j@),
{
    match j {
        Json::Null => strason::Json::from(()),
        Json::Bool(b) => strason::Json::from(*b),
        Json::Num(s) => strason::Json::from_str(s).expect("well-formed number text"),
        Json::Str(s) => strason::Json::from(s.as_str()),
        Json::Array(v) => strason::Json::from(v.iter().map(to_wire).collect::<Vec<_>>()),
        Json::Object(v) => strason::Json::from(
            v.iter().map(|e| (e.0.clone(), to_wire(&e.1))).collect::<Vec<_>>(),
        ),
    }
}

/// Converts strason's representation back into the model. Relies on
/// strason's accessors `null`, `bool`, `num`, `string`, `array` and
/// `object`: exactly one applies to any value.
#[verifier::external_body]
fn from_wire(w: &strason::Json) -> Json {
    if w.null().is_some() {
        Json::Null
    } else if let Some(b) = w.bool() {
        Json::Bool(b)
    } else if let Some(s) = w.num() {
        Json::Num(s.to_owned())
    } else if let Some(s) = w.string() {
        Json::Str(s.to_owned())
    } else if let Some(a) = w.array() {
        Json::Array(a.iter().map(from_wire).collect())
    } else {
        Json::Object(w.object().unwrap().iter().map(|e| (e.0.clone(), from_wire(&e.1))).collect())
    }
}

/// Relies on `strason::Json::to_bytes`: the serializer writes one JSON text
/// per value, named here `bytes_of`.
#[verifier::external_body]
pub(crate) fn to_bytes(j: &Json) -> (r: Vec<u8>)
    requires
        jval_wf(j@),
    ensures
        r@ == bytes_of(j@),
{
    to_wire(j).to_bytes()
}

/// Relies on strason's parser: it reads one value from the bytes, named
/// here `parse_of`, and it inverts the serializer on well-formed values —
/// object order and number text are kept, and every string character is
/// either written literally or `\u`-escaped, and read back as written.
#[verifier::external_body]
pub(crate) fn bytes_to_json(b: &[u8]) -> (r: Option<Json>)
    ensures
        r is Some <==> parse_of(b@) is Some,
        r matches Some(j) ==> Some(j@) == parse_of(b@),
        forall|v: JVal| #![trigger bytes_of(v)]
            jval_wf(v) && b@ == bytes_of(v) ==> r is Some && r->0@ == v,
{
    match strason::Json::from_reader(b) {
        Ok(w) => Some(from_wire(&w)),
        Err(_) => None,
    }
}

} // verus!
