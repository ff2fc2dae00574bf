//! A client-side implementation of the JSON-RPC 2.0 protocol: the request
//! and response wire model, nonce-based request construction, reply
//! validation, and a unified error taxonomy.

use vstd::prelude::*;

pub mod client;
pub mod digits;
pub mod error;
pub mod json;
pub mod wire;

pub use client::Client;
pub use error::Error;
pub use error::RpcError;
pub use json::Json;

use crate::digits::code_of;
use crate::digits::lemma_code_of_some;
use crate::digits::parse_i32;
use crate::error::ErrorV;
use crate::error::RpcErrorV;
use crate::json::jval_of;
use crate::json::lemma_array_view;
use crate::json::JVal;

verus! {

/// A JSON-RPC request object.
#[derive(Debug, PartialEq)]
pub struct Request {
    /// The name of the RPC call.
    pub method: String,
    /// Parameters to the RPC call; their order is significant and kept.
    pub params: Vec<Json>,
    /// Identifier for this request, which the response must repeat.
    pub id: Json,
    /// The protocol version field; when present it must be `"2.0"`.
    pub jsonrpc: Option<String>,
}

/// The mathematical shape of a request.
pub ghost struct ReqV {
    pub method: Seq<char>,
    pub params: Seq<JVal>,
    pub id: JVal,
    pub jsonrpc: Option<Seq<char>>,
}

impl View for Request {
    type V = ReqV;

    open spec fn view(&self) -> ReqV {
        ReqV {
            method: self.method@,
            params: self.params.deep_view(),
            id: self.id@,
            jsonrpc: self.jsonrpc.deep_view(),
        }
    }
}

/// A JSON-RPC response object.
#[derive(Debug, PartialEq)]
pub struct Response {
    /// The result, when the server sent one. A present JSON `null` is kept
    /// apart from an absent field.
    pub result: Option<Json>,
    /// The error, when the server sent one.
    pub error: Option<RpcError>,
    /// Identifier of the request this reply answers.
    pub id: Json,
    /// The protocol version field; when present it must be `"2.0"`.
    pub jsonrpc: Option<String>,
}

/// The mathematical shape of a response.
pub ghost struct RespV {
    pub result: Option<JVal>,
    pub error: Option<RpcErrorV>,
    pub id: JVal,
    pub jsonrpc: Option<Seq<char>>,
}

impl View for Response {
    type V = RespV;

    open spec fn view(&self) -> RespV {
        RespV {
            result: self.result.deep_view(),
            error: self.error.deep_view(),
            id: self.id@,
            jsonrpc: self.jsonrpc.deep_view(),
        }
    }
}

/// The value under the first entry of `e` that carries `key`, if any.
pub open spec fn lookup(e: Seq<(Seq<char>, JVal)>, key: Seq<char>) -> Option<JVal>
    decreases e.len(),
{
    if e.len() == 0 {
        None
    } else if e[0].0 == key {
        Some(e[0].1)
    } else {
        lookup(e.drop_first(), key)
    }
}

/// What `lookup` returns when the first `i` keys differ from `key` and the
/// entry at `i`, if any, carries it.
pub proof fn lemma_lookup_at(e: Seq<(Seq<char>, JVal)>, key: Seq<char>, i: int)
    requires
        0 <= i <= e.len(),
        forall|k: int| 0 <= k < i ==> (#[trigger] e[k]).0 != key,
        i < e.len() ==> e[i].0 == key,
    ensures
        lookup(e, key) == if i < e.len() {
            Some(e[i].1)
        } else {
            None::<JVal>
        },
    decreases e.len(),
{
    if e.len() > 0 && i > 0 {
        let rest = e.drop_first();
        assert(forall|k: int| 0 <= k < i - 1 ==> (#[trigger] rest[k]).0 == e[k + 1].0);
        lemma_lookup_at(rest, key, i - 1);
    }
}

/// The entries of a JSON object holding the given vector.
pub open spec fn obj_entries(v: Vec<(String, Json)>) -> Seq<(Seq<char>, JVal)> {
    jval_of(Json::Object(v))->Obj_0
}

/// The first entry of `entries` under `key`, if any.
fn lookup_exec<'a>(entries: &'a Vec<(String, Json)>, key: &String) -> (r: Option<&'a Json>)
    ensures
        match r {
            Some(x) => lookup(obj_entries(*entries), key@) == Some(x@),
            None => lookup(obj_entries(*entries), key@) is None,
        },
{
    let ghost e = obj_entries(*entries);
    let mut i: usize = 0;
    while i < entries.len()
        invariant
            i <= entries@.len(),
            e == obj_entries(*entries),
            e.len() == entries@.len(),
            forall|k: int| 0 <= k < i ==> (#[trigger] e[k]).0 != key@,
        decreases entries@.len() - i,
    {
        let entry = &entries[i];
        if entry.0 == *key {
            proof {
                assert(e[i as int].0 == key@);
                lemma_lookup_at(e, key@, i as int);
            }
            return Some(&entry.1);
        }
        proof {
            assert(e[i as int].0 == entry.0@);
        }
        i += 1;
    }
    proof {
        lemma_lookup_at(e, key@, e.len() as int);
    }
    None
}

/// An element-wise structural copy of a vector of values.
fn clone_json_vec(v: &Vec<Json>) -> (r: Vec<Json>)
    ensures
        r.deep_view() == v.deep_view(),
{
    let mut out: Vec<Json> = Vec::new();
    let mut i: usize = 0;
    while i < v.len()
        invariant
            i <= v@.len(),
            out@.len() == i as int,
            forall|k: int| 0 <= k < i ==> jval_of(#[trigger] out@[k]) == jval_of(v@[k]),
        decreases v@.len() - i,
    {
        let e = v[i].deep_clone();
        out.push(e);
        i += 1;
    }
    proof {
        assert(out.deep_view() =~= v.deep_view());
    }
    out
}

/// The JSON object a request serializes to: `method`, `params` and `id` in
/// that order, then `jsonrpc` when it is present.
pub open spec fn req_jval(r: ReqV) -> JVal {
    let base = seq![
        ("method"@, JVal::Str(r.method)),
        ("params"@, JVal::Arr(r.params)),
        ("id"@, r.id),
    ];
    match r.jsonrpc {
        Some(v) => JVal::Obj(base.push(("jsonrpc"@, JVal::Str(v)))),
        None => JVal::Obj(base),
    }
}

/// The request a JSON value decodes to, if any: an object whose `method` is
/// a string, whose `params` is an array, whose `id` is present, and whose
/// `jsonrpc`, when present, is a string. Unknown members are ignored; of
/// repeated members the first counts.
pub open spec fn req_of_jval(v: JVal) -> Option<ReqV> {
    match v {
        JVal::Obj(e) => match (lookup(e, "method"@), lookup(e, "params"@), lookup(e, "id"@)) {
            (Some(JVal::Str(ms)), Some(JVal::Arr(ps)), Some(idv)) => match lookup(e, "jsonrpc"@) {
                None => Some(ReqV { method: ms, params: ps, id: idv, jsonrpc: None }),
                Some(JVal::Str(vs)) => Some(
                    ReqV { method: ms, params: ps, id: idv, jsonrpc: Some(vs) },
                ),
                Some(_) => None,
            },
            _ => None,
        },
        _ => None,
    }
}

impl Request {
    /// The JSON object this request serializes to.
    pub fn to_json(&self) -> (j: Json)
        ensures
            j@ == req_jval(self@),
    {
        let params_vec = clone_json_vec(&self.params);
        proof {
            lemma_array_view(params_vec);
        }
        let mut entries: Vec<(String, Json)> = Vec::new();
        entries.push((String::from_str("method"), Json::Str(self.method.clone())));
        entries.push((String::from_str("params"), Json::Array(params_vec)));
        entries.push((String::from_str("id"), self.id.deep_clone()));
        match &self.jsonrpc {
            Some(v) => entries.push((String::from_str("jsonrpc"), Json::Str(v.clone()))),
            None => (),
        }
        let j = Json::Object(entries);
        proof {
            let ev = jval_of(j)->Obj_0;
            let tv = req_jval(self@)->Obj_0;
            assert(ev.len() == entries@.len());
            assert(ev[0] == (entries@[0].0@, jval_of(entries@[0].1)));
            assert(ev[1] == (entries@[1].0@, jval_of(entries@[1].1)));
            assert(ev[2] == (entries@[2].0@, jval_of(entries@[2].1)));
            if self.jsonrpc is Some {
                assert(ev[3] == (entries@[3].0@, jval_of(entries@[3].1)));
            }
            assert(ev =~= tv);
        }
        j
    }

    /// The request a JSON value decodes to, or a `Decode` error when it has
    /// no request shape.
    pub fn from_json(j: &Json) -> (r: Result<Request, Error>)
        ensures
            match req_of_jval(j@) {
                Some(rv) => r is Ok && r->Ok_0@ == rv,
                None => r == Err::<Request, Error>(Error::Decode),
            },
    {
        let entries = match j {
            Json::Object(entries) => entries,
            _ => {
                return Err(Error::Decode);
            },
        };
        let method = match lookup_exec(entries, &String::from_str("method")) {
            Some(Json::Str(s)) => s.clone(),
            _ => {
                return Err(Error::Decode);
            },
        };
        let params = match lookup_exec(entries, &String::from_str("params")) {
            Some(Json::Array(a)) => {
                proof {
                    lemma_array_view(*a);
                }
                clone_json_vec(a)
            },
            _ => {
                return Err(Error::Decode);
            },
        };
        let id = match lookup_exec(entries, &String::from_str("id")) {
            Some(v) => v.deep_clone(),
            None => {
                return Err(Error::Decode);
            },
        };
        let jsonrpc = match lookup_exec(entries, &String::from_str("jsonrpc")) {
            None => None,
            Some(Json::Str(s)) => Some(s.clone()),
            Some(_) => {
                return Err(Error::Decode);
            },
        };
        Ok(Request { method, params, id, jsonrpc })
    }
}

/// Decoding inverts encoding: any request's JSON object decodes back to the
/// request itself, `params` order and all.
pub proof fn lemma_request_round_trip(r: ReqV)
    ensures
        req_of_jval(req_jval(r)) == Some(r),
{
    reveal_strlit("method");
    reveal_strlit("params");
    reveal_strlit("id");
    reveal_strlit("jsonrpc");
    assert("method"@.len() == 6 && "params"@.len() == 6 && "id"@.len() == 2 && "jsonrpc"@.len()
        == 7);
    assert("method"@[0] == 'm' && "params"@[0] == 'p');
    let e = req_jval(r)->Obj_0;
    lemma_lookup_at(e, "method"@, 0);
    lemma_lookup_at(e, "params"@, 1);
    lemma_lookup_at(e, "id"@, 2);
    match r.jsonrpc {
        Some(v) => {
            lemma_lookup_at(e, "jsonrpc"@, 3);
        },
        None => {
            lemma_lookup_at(e, "jsonrpc"@, 3);
        },
    }
}

/// The JSON object an RPC error serializes to: `code` and `message` in that
/// order, then `data` when it is present.
pub open spec fn rpcerr_jval(e: RpcErrorV) -> JVal {
    let base = seq![
        ("code"@, JVal::Num(crate::digits::code_text(e.code))),
        ("message"@, JVal::Str(e.message)),
    ];
    match e.data {
        Some(d) => JVal::Obj(base.push(("data"@, d))),
        None => JVal::Obj(base),
    }
}

/// The RPC error a JSON value decodes to, if any: an object whose `code` is
/// the canonical decimal text of a signed 32-bit value and whose `message`
/// is a string; `data` may carry any value or be absent.
pub open spec fn rpcerr_of_jval(v: JVal) -> Option<RpcErrorV> {
    match v {
        JVal::Obj(e) => match (lookup(e, "code"@), lookup(e, "message"@)) {
            (Some(JVal::Num(cs)), Some(JVal::Str(ms))) => match code_of(cs) {
                Some(c) => Some(RpcErrorV { code: c, message: ms, data: lookup(e, "data"@) }),
                None => None,
            },
            _ => None,
        },
        _ => None,
    }
}

impl RpcError {
    /// The JSON object this error serializes to.
    pub fn to_json(&self) -> (j: Json)
        ensures
            j@ == rpcerr_jval(self@),
    {
        let mut entries: Vec<(String, Json)> = Vec::new();
        entries.push((String::from_str("code"), Json::Num(crate::digits::i32_to_dec(self.code))));
        entries.push((String::from_str("message"), Json::Str(self.message.clone())));
        match &self.data {
            Some(d) => entries.push((String::from_str("data"), d.deep_clone())),
            None => (),
        }
        let j = Json::Object(entries);
        proof {
            let ev = jval_of(j)->Obj_0;
            assert(ev[0] == (entries@[0].0@, jval_of(entries@[0].1)));
            assert(ev[1] == (entries@[1].0@, jval_of(entries@[1].1)));
            if self.data is Some {
                assert(ev[2] == (entries@[2].0@, jval_of(entries@[2].1)));
            }
            assert(ev =~= rpcerr_jval(self@)->Obj_0);
        }
        j
    }

    /// The RPC error a JSON value decodes to, or a `Decode` error when it
    /// has no such shape.
    pub fn from_json(j: &Json) -> (r: Result<RpcError, Error>)
        ensures
            match rpcerr_of_jval(j@) {
                Some(ev) => r is Ok && r->Ok_0@ == ev,
                None => r == Err::<RpcError, Error>(Error::Decode),
            },
    {
        let entries = match j {
            Json::Object(entries) => entries,
            _ => {
                return Err(Error::Decode);
            },
        };
        let code = match lookup_exec(entries, &String::from_str("code")) {
            Some(Json::Num(s)) => match parse_i32(s.as_str()) {
                Some(c) => c,
                None => {
                    return Err(Error::Decode);
                },
            },
            _ => {
                return Err(Error::Decode);
            },
        };
        let message = match lookup_exec(entries, &String::from_str("message")) {
            Some(Json::Str(s)) => s.clone(),
            _ => {
                return Err(Error::Decode);
            },
        };
        let data = match lookup_exec(entries, &String::from_str("data")) {
            Some(d) => Some(d.deep_clone()),
            None => None,
        };
        Ok(RpcError { code, message, data })
    }
}

/// Decoding inverts encoding for RPC errors.
pub proof fn lemma_rpcerr_round_trip(e: RpcErrorV)
    requires
        i32::MIN <= e.code <= i32::MAX,
    ensures
        rpcerr_of_jval(rpcerr_jval(e)) == Some(e),
{
    reveal_strlit("code");
    reveal_strlit("message");
    reveal_strlit("data");
    assert("code"@.len() == 4 && "message"@.len() == 7 && "data"@.len() == 4);
    assert("code"@[0] == 'c' && "data"@[0] == 'd');
    let en = rpcerr_jval(e)->Obj_0;
    lemma_lookup_at(en, "code"@, 0);
    lemma_lookup_at(en, "message"@, 1);
    lemma_lookup_at(en, "data"@, 2);
    lemma_code_of_some(crate::digits::code_text(e.code), e.code);
}

/// The JSON object a response serializes to: `result` and `error` when they
/// are present, then `id`, then `jsonrpc` when it is present.
pub open spec fn resp_jval(r: RespV) -> JVal {
    let e0: Seq<(Seq<char>, JVal)> = match r.result {
        Some(v) => seq![("result"@, v)],
        None => seq![],
    };
    let e1: Seq<(Seq<char>, JVal)> = match r.error {
        Some(er) => e0.push(("error"@, rpcerr_jval(er))),
        None => e0,
    };
    let e2 = e1.push(("id"@, r.id));
    match r.jsonrpc {
        Some(s) => JVal::Obj(e2.push(("jsonrpc"@, JVal::Str(s)))),
        None => JVal::Obj(e2),
    }
}

/// The response a JSON value decodes to, if any: an object whose `id` is
/// present and whose `jsonrpc`, when present, is a string. A present
/// `result` is kept even when it is `null`; an `error` of `null` counts as
/// absent, and any other present `error` must decode as an RPC error.
pub open spec fn resp_of_jval(v: JVal) -> Option<RespV> {
    match v {
        JVal::Obj(e) => match lookup(e, "id"@) {
            Some(idv) => {
                let jr = match lookup(e, "jsonrpc"@) {
                    None => Some(None::<Seq<char>>),
                    Some(JVal::Str(s)) => Some(Some(s)),
                    Some(_) => None,
                };
                let er = match lookup(e, "error"@) {
                    None => Some(None::<RpcErrorV>),
                    Some(JVal::Null) => Some(None::<RpcErrorV>),
                    Some(ev) => match rpcerr_of_jval(ev) {
                        Some(x) => Some(Some(x)),
                        None => None,
                    },
                };
                match (jr, er) {
                    (Some(jsonrpc), Some(error)) => Some(
                        RespV { result: lookup(e, "result"@), error, id: idv, jsonrpc },
                    ),
                    _ => None,
                }
            },
            None => None,
        },
        _ => None,
    }
}

impl Response {
    /// The JSON object this response serializes to.
    pub fn to_json(&self) -> (j: Json)
        ensures
            j@ == resp_jval(self@),
    {
        let mut entries: Vec<(String, Json)> = Vec::new();
        match &self.result {
            Some(v) => entries.push((String::from_str("result"), v.deep_clone())),
            None => (),
        }
        match &self.error {
            Some(e) => entries.push((String::from_str("error"), e.to_json())),
            None => (),
        }
        entries.push((String::from_str("id"), self.id.deep_clone()));
        match &self.jsonrpc {
            Some(s) => entries.push((String::from_str("jsonrpc"), Json::Str(s.clone()))),
            None => (),
        }
        let j = Json::Object(entries);
        proof {
            let ev = jval_of(j)->Obj_0;
            assert(forall|k: int|
                0 <= k < entries@.len() ==> #[trigger] ev[k] == (
                    entries@[k].0@,
                    jval_of(entries@[k].1),
                ));
            assert(ev =~= resp_jval(self@)->Obj_0);
        }
        j
    }

    /// The response a JSON value decodes to, or a `Decode` error when it
    /// has no response shape.
    pub fn from_json(j: &Json) -> (r: Result<Response, Error>)
        ensures
            match resp_of_jval(j@) {
                Some(rv) => r is Ok && r->Ok_0@ == rv,
                None => r == Err::<Response, Error>(Error::Decode),
            },
    {
        let entries = match j {
            Json::Object(entries) => entries,
            _ => {
                return Err(Error::Decode);
            },
        };
        let id = match lookup_exec(entries, &String::from_str("id")) {
            Some(v) => v.deep_clone(),
            None => {
                return Err(Error::Decode);
            },
        };
        let jsonrpc = match lookup_exec(entries, &String::from_str("jsonrpc")) {
            None => None,
            Some(Json::Str(s)) => Some(s.clone()),
            Some(_) => {
                return Err(Error::Decode);
            },
        };
        let result = match lookup_exec(entries, &String::from_str("result")) {
            None => None,
            Some(v) => Some(v.deep_clone()),
        };
        let error = match lookup_exec(entries, &String::from_str("error")) {
            None => None,
            Some(Json::Null) => None,
            Some(ev) => match RpcError::from_json(ev) {
                Ok(e) => Some(e),
                Err(_) => {
                    return Err(Error::Decode);
                },
            },
        };
        Ok(Response { result, error, id, jsonrpc })
    }

    /// The extraction outcome of this response, borrowed: the error when
    /// one is present, else the result, else `NoErrorOrResult`.
    pub fn result(&self) -> (out: Result<Json, Error>)
        ensures
            match spec_extract(self@) {
                Ok(v) => out is Ok && out->Ok_0@ == v,
                Err(e) => out is Err && out->Err_0@ == e,
            },
    {
        match &self.error {
            Some(e) => Err(Error::Rpc(e.deep_clone())),
            None => match &self.result {
                Some(v) => Ok(v.deep_clone()),
                None => Err(Error::NoErrorOrResult),
            },
        }
    }

    /// The extraction outcome of this response, consuming it.
    pub fn into_result(self) -> (out: Result<Json, Error>)
        ensures
            match spec_extract(self@) {
                Ok(v) => out is Ok && out->Ok_0@ == v,
                Err(e) => out is Err && out->Err_0@ == e,
            },
    {
        match self.error {
            Some(e) => Err(Error::Rpc(e)),
            None => match self.result {
                Some(v) => Ok(v),
                None => Err(Error::NoErrorOrResult),
            },
        }
    }

    /// The RPC error when one is present; ignores the result entirely.
    pub fn check_error(self) -> (out: Result<(), Error>)
        ensures
            match self@.error {
                Some(e) => out is Err && out->Err_0@ == ErrorV::Rpc(e),
                None => out is Ok,
            },
    {
        match self.error {
            Some(e) => Err(Error::Rpc(e)),
            None => Ok(()),
        }
    }

    /// A structural copy of this response.
    pub fn deep_clone(&self) -> (r: Response)
        ensures
            r@ == self@,
    {
        Response {
            result: match &self.result {
                Some(v) => Some(v.deep_clone()),
                None => None,
            },
            error: match &self.error {
                Some(e) => Some(e.deep_clone()),
                None => None,
            },
            id: self.id.deep_clone(),
            jsonrpc: match &self.jsonrpc {
                Some(s) => Some(s.clone()),
                None => None,
            },
        }
    }

    /// Whether the `result` field is absent, whatever the `error` field
    /// holds.
    pub fn is_none(&self) -> (r: bool)
        ensures
            r == (self@.result is None),
    {
        self.result.is_none()
    }
}

/// What extraction yields from a response: the error when one is present,
/// regardless of the result; else the result; else `NoErrorOrResult`. Both
/// extraction operations return exactly this.
pub open spec fn spec_extract(r: RespV) -> Result<JVal, ErrorV> {
    match r.error {
        Some(e) => Err(ErrorV::Rpc(e)),
        None => match r.result {
            Some(v) => Ok(v),
            None => Err(ErrorV::NoErrorOrResult),
        },
    }
}

/// Error precedence: when a response carries both a result and an error,
/// extraction yields the RPC error, never the result.
pub proof fn lemma_error_precedence(r: RespV)
    requires
        r.error is Some,
    ensures
        spec_extract(r) == Err::<JVal, ErrorV>(ErrorV::Rpc(r.error->0)),
{
}

/// Decoding inverts encoding: any response's JSON object decodes back to
/// the response itself.
pub proof fn lemma_response_round_trip(r: RespV)
    requires
        match r.error {
            Some(e) => i32::MIN <= e.code <= i32::MAX,
            None => true,
        },
    ensures
        resp_of_jval(resp_jval(r)) == Some(r),
{
    reveal_strlit("result");
    reveal_strlit("error");
    reveal_strlit("id");
    reveal_strlit("jsonrpc");
    assert("result"@.len() == 6 && "error"@.len() == 5 && "id"@.len() == 2 && "jsonrpc"@.len()
        == 7);
    let e = resp_jval(r)->Obj_0;
    let ri: int = if r.result is Some {
        1
    } else {
        0
    };
    let ei: int = ri + (if r.error is Some {
        1int
    } else {
        0int
    });
    if r.result is Some {
        lemma_lookup_at(e, "result"@, 0);
    } else {
        lemma_lookup_at(e, "result"@, e.len() as int);
    }
    if r.error is Some {
        lemma_lookup_at(e, "error"@, ri);
        lemma_rpcerr_round_trip(r.error->0);
    } else {
        lemma_lookup_at(e, "error"@, e.len() as int);
    }
    lemma_lookup_at(e, "id"@, ei);
    if r.jsonrpc is Some {
        lemma_lookup_at(e, "jsonrpc"@, ei + 1);
    } else {
        lemma_lookup_at(e, "jsonrpc"@, e.len() as int);
    }
}

} // verus!
