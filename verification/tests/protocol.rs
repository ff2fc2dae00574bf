use jsonrpc::Error;
use jsonrpc::Json;
use jsonrpc::Request;
use jsonrpc::Response;
use jsonrpc::RpcError;

fn s(text: &str) -> String {
    text.to_string()
}

#[test]
fn request_serialize_round_trip() {
    let original = Request {
        method: s("test"),
        params: vec![
            Json::Null,
            Json::Bool(false),
            Json::Bool(true),
            Json::Str(s("test2")),
        ],
        id: Json::Str(s("69")),
        jsonrpc: Some(s("2.0")),
    };

    let ser = original.to_json();
    let des = Request::from_json(&ser).unwrap();

    assert_eq!(original, des);
}

#[test]
fn response_serialize_round_trip() {
    let original_err = RpcError {
        code: -77,
        message: s("test4"),
        data: Some(Json::Bool(true)),
    };

    let original = Response {
        result: Some(Json::Array(vec![
            Json::Null,
            Json::Bool(false),
            Json::Bool(true),
            Json::Str(s("test2")),
        ])),
        error: Some(original_err),
        id: Json::Num(s("101")),
        jsonrpc: Some(s("2.0")),
    };

    let ser = original.to_json();
    let des = Response::from_json(&ser).unwrap();

    assert_eq!(original, des);
}

#[test]
fn response_is_none() {
    let joanna = Response {
        result: Some(Json::Bool(true)),
        error: None,
        id: Json::Num(s("81")),
        jsonrpc: Some(s("2.0")),
    };

    let bill = Response {
        result: None,
        error: None,
        id: Json::Num(s("66")),
        jsonrpc: Some(s("2.0")),
    };

    assert!(!joanna.is_none());
    assert!(bill.is_none());
}

#[test]
fn response_extract() {
    let obj = vec!["Mary", "had", "a", "little", "lamb"];
    let response = Response {
        result: Some(Json::Array(obj.iter().map(|w| Json::Str(s(w))).collect())),
        error: None,
        id: Json::Null,
        jsonrpc: Some(s("2.0")),
    };
    let recovered1 = strings_of(response.result().unwrap());
    assert!(response.deep_clone().check_error().is_ok());
    let recovered2 = strings_of(response.into_result().unwrap());
    assert_eq!(obj, recovered1);
    assert_eq!(obj, recovered2);
}

fn strings_of(j: Json) -> Vec<String> {
    match j {
        Json::Array(elems) => elems
            .into_iter()
            .map(|e| match e {
                Json::Str(w) => w,
                _ => panic!("expected a string element"),
            })
            .collect(),
        _ => panic!("expected an array"),
    }
}

#[test]
fn error_takes_precedence_over_result() {
    let response = Response {
        result: Some(Json::Array(vec![
            Json::Null,
            Json::Bool(false),
            Json::Bool(true),
            Json::Str(s("test2")),
        ])),
        error: Some(RpcError {
            code: -77,
            message: s("test4"),
            data: Some(Json::Bool(true)),
        }),
        id: Json::Num(s("101")),
        jsonrpc: Some(s("2.0")),
    };
    match response.result() {
        Err(Error::Rpc(e)) => assert_eq!(e.code, -77),
        other => panic!("expected the RPC error, got {:?}", other),
    }
    match response.into_result() {
        Err(Error::Rpc(e)) => assert_eq!(e.code, -77),
        other => panic!("expected the RPC error, got {:?}", other),
    }
}

#[test]
fn empty_response_has_no_error_or_result() {
    let response = Response {
        result: None,
        error: None,
        id: Json::Num(s("66")),
        jsonrpc: Some(s("2.0")),
    };
    assert!(response.is_none());
    assert_eq!(response.into_result(), Err(Error::NoErrorOrResult));
}

#[test]
fn decode_rejects_mangled_error_code() {
    let reply = Json::Object(vec![
        (s("error"), Json::Object(vec![
            (s("code"), Json::Num(s("1e2"))),
            (s("message"), Json::Str(s("oops"))),
        ])),
        (s("id"), Json::Num(s("1"))),
    ]);
    assert_eq!(Response::from_json(&reply), Err(Error::Decode));
}

#[test]
fn null_error_counts_as_absent() {
    let reply = Json::Object(vec![
        (s("result"), Json::Num(s("5"))),
        (s("error"), Json::Null),
        (s("id"), Json::Num(s("1"))),
        (s("jsonrpc"), Json::Str(s("2.0"))),
    ]);
    let resp = Response::from_json(&reply).unwrap();
    assert_eq!(resp.error, None);
    assert_eq!(resp.result, Some(Json::Num(s("5"))));
}

#[test]
fn null_result_is_kept_apart_from_absent() {
    let reply = Json::Object(vec![
        (s("result"), Json::Null),
        (s("id"), Json::Num(s("1"))),
    ]);
    let resp = Response::from_json(&reply).unwrap();
    assert_eq!(resp.result, Some(Json::Null));
    assert!(!resp.is_none());
}
