//! The client: the nonce discipline that gives every request a fresh
//! identifier, serialization of requests to wire bytes, and validation of
//! reply bytes against the protocol version and the request's identifier.

use vstd::prelude::*;

use crate::digits::dec_of;
use crate::digits::lemma_dec_of_injective;
use crate::digits::lemma_dec_of_num_wf;
use crate::digits::u64_to_dec;
use crate::error::ErrorV;
use crate::error::RpcErrorV;
use crate::json::json_eq;
use crate::json::jval_wf;
use crate::json::JVal;
use crate::json::Json;
use crate::req_jval;
use crate::resp_of_jval;
use crate::ReqV;
use crate::wire::bytes_of;
use crate::wire::bytes_to_json;
use crate::wire::parse_of;
use crate::wire::to_bytes;
use crate::Error;
use crate::Request;
use crate::RespV;
use crate::Response;

verus! {

/// The identifier value the given nonce produces: the nonce's decimal text
/// as a JSON number.
pub open spec fn id_of_nonce(n: nat) -> JVal {
    JVal::Num(dec_of(n))
}

/// Distinct nonces produce distinct request identifiers, so the requests
/// one client builds are pairwise distinguishable by their `id`.
pub proof fn lemma_nonce_ids_distinct(a: nat, b: nat)
    requires
        a != b,
    ensures
        id_of_nonce(a) != id_of_nonce(b),
{
    if dec_of(a) == dec_of(b) {
        lemma_dec_of_injective(a, b);
    }
}

/// After any run of builds in a row — each of which, by `build_request`'s
/// contract, returns the identifier of the incremented counter — the
/// identifiers handed out are pairwise distinct.
pub proof fn lemma_sequential_ids_distinct(n0: nat, ids: Seq<JVal>)
    requires
        forall|k: int| 0 <= k < ids.len() ==> ids[k] == id_of_nonce((n0 + k + 1) as nat),
    ensures
        forall|i: int, j: int| 0 <= i < j < ids.len() ==> ids[i] != ids[j],
{
    assert forall|i: int, j: int| 0 <= i < j < ids.len() implies ids[i] != ids[j] by {
        lemma_nonce_ids_distinct((n0 + i + 1) as nat, (n0 + j + 1) as nat);
    }
}

/// Every identifier a nonce produces is wire-well-formed: its decimal text
/// follows the JSON number grammar.
pub proof fn lemma_id_of_nonce_wf(n: nat)
    ensures
        jval_wf(id_of_nonce(n)),
{
    lemma_dec_of_num_wf(n);
}

/// A built request is wire-well-formed as soon as its parameters are: the
/// identifier a nonce produces and the `"2.0"` version string never stand in
/// the way.
pub proof fn lemma_built_request_wf(r: ReqV, n: nat)
    requires
        forall|i: int| 0 <= i < r.params.len() ==> jval_wf(#[trigger] r.params[i]),
        r.id == id_of_nonce(n),
        r.jsonrpc == Some("2.0"@),
    ensures
        jval_wf(req_jval(r)),
{
    lemma_id_of_nonce_wf(n);
    let e = req_jval(r)->Obj_0;
    assert(jval_wf(JVal::Arr(r.params)));
    assert(forall|i: int| 0 <= i < e.len() ==> jval_wf((#[trigger] e[i]).1));
}

/// The mathematical shape of a client.
pub ghost struct ClientV {
    pub url: Seq<char>,
    pub user: Option<Seq<char>>,
    pub pass: Option<Seq<char>>,
    pub nonce: nat,
}

/// A handle to a remote JSON-RPC server: its endpoint, optional basic-auth
/// credentials, and the counter from which request identifiers are drawn.
pub struct Client {
    url: String,
    user: Option<String>,
    pass: Option<String>,
    nonce: u64,
}

impl View for Client {
    type V = ClientV;

    closed spec fn view(&self) -> ClientV {
        ClientV {
            url: self.url@,
            user: self.user.deep_view(),
            pass: self.pass.deep_view(),
            nonce: self.nonce as nat,
        }
    }
}

impl Client {
    /// Creates a new client for the given endpoint. A password without a
    /// username is rejected at construction, by contract.
    pub fn new(url: String, user: Option<String>, pass: Option<String>) -> (c: Client)
        requires
            user is None ==> pass is None,
        ensures
            c@.url == url@,
            c@.user == user.deep_view(),
            c@.pass == pass.deep_view(),
            c@.nonce == 0,
    {
        Client { url, user, pass, nonce: 0 }
    }

    /// Builds a request: draws the next nonce and stamps its decimal text
    /// as the request's identifier, with `jsonrpc` set to `"2.0"`.
    pub fn build_request(&mut self, method: String, params: Vec<Json>) -> (r: Request)
        requires
            old(self)@.nonce < u64::MAX as nat,
        ensures
            final(self)@.nonce == old(self)@.nonce + 1,
            final(self)@.url == old(self)@.url,
            final(self)@.user == old(self)@.user,
            final(self)@.pass == old(self)@.pass,
            r@.method == method@,
            r@.params == params.deep_view(),
            r@.id == id_of_nonce(final(self)@.nonce),
            r@.jsonrpc == Some("2.0"@),
    {
        self.nonce = self.nonce + 1;
        Request {
            method,
            params,
            id: Json::Num(u64_to_dec(self.nonce)),
            jsonrpc: Some(String::from_str("2.0")),
        }
    }

    /// The nonce the last built request used, or zero on a fresh client.
    pub fn last_nonce(&self) -> (n: u64)
        ensures
            n as nat == self@.nonce,
    {
        self.nonce
    }

    /// The endpoint this client sends to.
    pub fn url(&self) -> (r: &String)
        ensures
            r@ == self@.url,
    {
        &self.url
    }

    /// The configured username, if any.
    pub fn user(&self) -> (r: &Option<String>)
        ensures
            r.deep_view() == self@.user,
    {
        &self.user
    }

    /// The configured password, if any.
    pub fn pass(&self) -> (r: &Option<String>)
        ensures
            r.deep_view() == self@.pass,
    {
        &self.pass
    }
}

/// Whether a request is well formed for the wire: every number in it
/// follows the JSON number grammar.
pub fn request_wf(req: &Request) -> (b: bool)
    ensures
        b == jval_wf(req_jval(req@)),
{
    let j = req.to_json();
    j.is_wf()
}

/// The serialized bytes of a request, as they go into the transport body.
pub fn request_body(req: &Request) -> (r: Vec<u8>)
    requires
        jval_wf(req_jval(req@)),
    ensures
        r@ == bytes_of(req_jval(req@)),
{
    let j = req.to_json();
    to_bytes(&j)
}

/// What validation yields from a decoded reply: a `Decode` error when the
/// value has no response shape; else `VersionMismatch` when `jsonrpc` is
/// present and differs from `"2.0"`; else `NonceMismatch` when the reply's
/// `id` differs from the request's; else the response. Each check
/// short-circuits the rest, in that order.
pub open spec fn spec_validate(req_id: JVal, v: JVal) -> Result<RespV, ErrorV> {
    match resp_of_jval(v) {
        None => Err(ErrorV::Decode),
        Some(rv) => {
            if (match rv.jsonrpc {
                Some(s) => s != "2.0"@,
                None => false,
            }) {
                Err(ErrorV::VersionMismatch)
            } else if rv.id != req_id {
                Err(ErrorV::NonceMismatch)
            } else {
                Ok(rv)
            }
        },
    }
}

/// Validates a decoded reply against the identifier of the request it
/// should answer.
pub fn validate_reply(req_id: &Json, reply: &Json) -> (out: Result<Response, Error>)
    ensures
        match spec_validate(req_id@, reply@) {
            Ok(rv) => out is Ok && out->Ok_0@ == rv,
            Err(e) => out is Err && out->Err_0@ == e,
        },
{
    let resp = match Response::from_json(reply) {
        Ok(r) => r,
        Err(_) => {
            return Err(Error::Decode);
        },
    };
    match &resp.jsonrpc {
        Some(s) => {
            if !(*s == String::from_str("2.0")) {
                return Err(Error::VersionMismatch);
            }
        },
        None => (),
    }
    if !json_eq(&resp.id, req_id) {
        return Err(Error::NonceMismatch);
    }
    Ok(resp)
}

/// Interprets raw reply bytes: parses them and validates the result. Bytes
/// that do not parse end in a `Decode` error; bytes that parse to a value
/// meet exactly what `spec_validate` says of it. Any well-formed value's
/// serialization parses back to that value, so a reply that is the encoding
/// of a matching response comes back as that response.
pub fn handle_reply(req_id: &Json, body: &[u8]) -> (out: Result<Response, Error>)
    ensures
        match parse_of(body@) {
            None => out is Err && out->Err_0@ == ErrorV::Decode,
            Some(v) => match spec_validate(req_id@, v) {
                Ok(rv) => out is Ok && out->Ok_0@ == rv,
                Err(e) => out is Err && out->Err_0@ == e,
            },
        },
        forall|v: JVal| #![trigger bytes_of(v)]
            jval_wf(v) && body@ == bytes_of(v) ==> parse_of(body@) == Some(v),
{
    let parsed = match bytes_to_json(body) {
        Some(j) => j,
        None => {
            return Err(Error::Decode);
        },
    };
    validate_reply(req_id, &parsed)
}

/// Validation order: a reply whose `jsonrpc` is present and differs from
/// `"2.0"` fails with `VersionMismatch`, whatever its identifier — in
/// particular when the identifier is mismatched too.
pub proof fn lemma_validation_order(req_id: JVal, v: JVal)
    requires
        resp_of_jval(v) matches Some(rv) && rv.jsonrpc matches Some(s) && s != "2.0"@,
    ensures
        spec_validate(req_id, v) == Err::<RespV, ErrorV>(ErrorV::VersionMismatch),
{
}

} // verus!
