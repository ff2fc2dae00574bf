use jsonrpc::client::handle_reply;
use jsonrpc::client::request_body;
use jsonrpc::client::request_wf;
use jsonrpc::Client;
use jsonrpc::Error;
use jsonrpc::Json;

fn s(text: &str) -> String {
    text.to_string()
}

#[test]
fn sanity() {
    let mut client = Client::new(s("localhost"), None, None);
    assert_eq!(client.last_nonce(), 0);
    let req1 = client.build_request(s("test"), vec![]);
    assert_eq!(client.last_nonce(), 1);
    let req2 = client.build_request(s("test"), vec![]);
    assert_eq!(client.last_nonce(), 2);
    assert!(req1 != req2);
}

#[test]
fn built_requests_carry_sequential_decimal_ids() {
    let mut client = Client::new(s("http://localhost/"), None, None);
    let req1 = client.build_request(s("getinfo"), vec![]);
    let req2 = client.build_request(s("getinfo"), vec![]);
    assert_eq!(req1.id, Json::Num(s("1")));
    assert_eq!(req2.id, Json::Num(s("2")));
    assert_eq!(req1.jsonrpc, Some(s("2.0")));
}

fn sample_request() -> jsonrpc::Request {
    jsonrpc::Request {
        method: s("test"),
        params: vec![
            Json::Null,
            Json::Bool(false),
            Json::Bool(true),
            Json::Str(s("test2")),
        ],
        id: Json::Str(s("69")),
        jsonrpc: Some(s("2.0")),
    }
}

#[test]
fn request_serializes_to_wire_text() {
    let req = sample_request();
    assert!(request_wf(&req));
    let body = request_body(&req);
    let expected =
        br#"{"method": "test", "params": [null, false, true, "test2"], "id": "69", "jsonrpc": "2.0"}"#;
    assert_eq!(body, expected.to_vec());
}

#[test]
fn reply_with_wrong_nonce_is_rejected() {
    let req_id = Json::Num(s("7"));
    let body = br#"{"result": "ok", "id": 5, "jsonrpc": "2.0"}"#;
    assert_eq!(handle_reply(&req_id, body), Err(Error::NonceMismatch));
}

#[test]
fn version_mismatch_is_reported_before_nonce_mismatch() {
    let req_id = Json::Num(s("7"));
    let body = br#"{"result": "ok", "id": 5, "jsonrpc": "1.0"}"#;
    assert_eq!(handle_reply(&req_id, body), Err(Error::VersionMismatch));
}

#[test]
fn matching_reply_is_returned() {
    let req_id = Json::Num(s("7"));
    let body = br#"{"result": [1, "two"], "id": 7, "jsonrpc": "2.0"}"#;
    let resp = handle_reply(&req_id, body).unwrap();
    assert_eq!(
        resp.result,
        Some(Json::Array(vec![Json::Num(s("1")), Json::Str(s("two"))]))
    );
    assert_eq!(resp.id, Json::Num(s("7")));
}

#[test]
fn absent_version_field_is_accepted() {
    let req_id = Json::Num(s("3"));
    let body = br#"{"result": true, "id": 3}"#;
    let resp = handle_reply(&req_id, body).unwrap();
    assert_eq!(resp.result, Some(Json::Bool(true)));
}

#[test]
fn unparseable_reply_is_a_decode_error() {
    let req_id = Json::Num(s("1"));
    let body = b"this is not json";
    assert_eq!(handle_reply(&req_id, body), Err(Error::Decode));
}

#[test]
fn rpc_error_reply_round_trips_through_bytes() {
    let req_id = Json::Num(s("9"));
    let body = br#"{"error": {"code": -77, "message": "test4", "data": true}, "id": 9, "jsonrpc": "2.0"}"#;
    let resp = handle_reply(&req_id, body).unwrap();
    match resp.into_result() {
        Err(Error::Rpc(e)) => {
            assert_eq!(e.code, -77);
            assert_eq!(e.message, s("test4"));
            assert_eq!(e.data, Some(Json::Bool(true)));
        },
        other => panic!("expected the RPC error, got {:?}", other),
    }
}

#[test]
fn transport_errors_carry_their_description() {
    let err = Error::Transport(s("connection refused"));
    assert_eq!(err, Error::Transport(s("connection refused")));
    assert!(err != Error::Decode);
}

#[test]
fn non_ascii_method_is_escaped_on_the_wire() {
    let req = jsonrpc::Request {
        method: s("caf\u{e9}"),
        params: vec![],
        id: Json::Str(s("1")),
        jsonrpc: Some(s("2.0")),
    };
    assert!(request_wf(&req));
    let body = request_body(&req);
    let expected = br#"{"method": "caf\u00e9", "params": [], "id": "1", "jsonrpc": "2.0"}"#;
    assert_eq!(body, expected.to_vec());
}

#[test]
fn non_ascii_reply_string_is_decoded() {
    let req_id = Json::Num(s("1"));
    let body = br#"{"result": "caf\u00e9", "id": 1, "jsonrpc": "2.0"}"#;
    let resp = handle_reply(&req_id, body).unwrap();
    assert_eq!(resp.result, Some(Json::Str(s("caf\u{e9}"))));
}

#[test]
fn garbled_number_text_is_not_wire_well_formed() {
    let req = jsonrpc::Request {
        method: s("test"),
        params: vec![Json::Num(s("1..2"))],
        id: Json::Num(s("1")),
        jsonrpc: Some(s("2.0")),
    };
    assert!(!request_wf(&req));
}
