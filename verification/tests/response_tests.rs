use jsonrpc::DecodeError;
use jsonrpc::Error;
use jsonrpc::Response;
use jsonrpc::RpcError;
use jsonrpc::decoded_to_result;
use jsonrpc::ident::Id;

#[test]
fn response_is_none() {
    let joanna = Response {
        result: Some(From::from(true)),
        error: None,
        id: Id::Num(81),
        jsonrpc: Some(String::from("2.0")),
    };

    let bill = Response {
        result: None,
        error: None,
        id: Id::Num(66),
        jsonrpc: Some(String::from("2.0")),
    };

    assert!(!joanna.is_error());
    assert!(!bill.is_error());
}

#[test]
fn response_extract() {
    let obj = vec!["Mary", "had", "a", "little", "lamb"];
    let response = Response {
        result: Some(serde_json::to_value(&obj).unwrap()),
        error: None,
        id: Id::Null,
        jsonrpc: Some(String::from("2.0")),
    };
    let recovered1: Vec<String> = response.result().unwrap();
    assert!(response.clone().check_error().is_ok());
    let recovered2: Vec<String> = response.into_result().unwrap();
    assert_eq!(obj, recovered1);
    assert_eq!(obj, recovered2);
}

#[test]
fn null_result() {
    // The wire form would be {"result":null,"error":null,"id":"test"}:
    // a JSON null in either field decodes to an absent one.
    let response = Response {
        result: None,
        error: None,
        id: Id::Text(String::from("test")),
        jsonrpc: None,
    };
    let recovered1: Result<(), _> = response.result();
    let recovered2: Result<(), _> = response.clone().into_result();
    assert!(recovered1.is_ok());
    assert!(recovered2.is_ok());

    let recovered1: Result<String, _> = response.result();
    let recovered2: Result<String, _> = response.clone().into_result();
    assert!(recovered1.is_err());
    assert!(recovered2.is_err());
}

#[test]
fn batch_response() {
    // the example batch from the jsonrpc.org specification
    let batch_response: Vec<Response> = vec![
        Response {
            result: Some(From::from(7)),
            error: None,
            id: Id::Text(String::from("1")),
            jsonrpc: Some(String::from("2.0")),
        },
        Response {
            result: Some(From::from(19)),
            error: None,
            id: Id::Text(String::from("2")),
            jsonrpc: Some(String::from("2.0")),
        },
        Response {
            result: None,
            error: Some(RpcError {
                code: -32600,
                message: String::from("Invalid Request"),
                data: None,
            }),
            id: Id::Null,
            jsonrpc: Some(String::from("2.0")),
        },
        Response {
            result: None,
            error: Some(RpcError {
                code: -32601,
                message: String::from("Method not found"),
                data: None,
            }),
            id: Id::Text(String::from("5")),
            jsonrpc: Some(String::from("2.0")),
        },
        Response {
            result: Some(serde_json::Value::Array(vec![
                From::from("hello"),
                From::from(5),
            ])),
            error: None,
            id: Id::Text(String::from("9")),
            jsonrpc: Some(String::from("2.0")),
        },
    ];
    assert_eq!(batch_response.len(), 5);
}

#[test]
fn error_wins_over_result() {
    // extraction surfaces a set error unchanged, even beside a result
    let e = RpcError {
        code: -3,
        message: String::from("boom"),
        data: Some(From::from(42)),
    };
    let response = Response {
        result: Some(From::from(true)),
        error: Some(e.clone()),
        id: Id::Num(7),
        jsonrpc: None,
    };
    assert!(response.is_error());
    assert!(response.is_result());
    match response.result::<serde_json::Value>() {
        Err(Error::Rpc(got)) => assert_eq!(got, e),
        _ => panic!("expected the rpc error to surface"),
    }
    match response.clone().into_result::<serde_json::Value>() {
        Err(Error::Rpc(got)) => assert_eq!(got, e),
        _ => panic!("expected the rpc error to surface"),
    }
    assert_eq!(response.error(), Some(e));
}

#[test]
fn decoder_outcomes_map_exactly() {
    assert_eq!(decoded_to_result::<u64>(Ok(7)).unwrap(), 7);
    match decoded_to_result::<u64>(Err(DecodeError { message: String::from("bad") })) {
        Err(Error::Json(e)) => assert_eq!(e.message, "bad"),
        _ => panic!("expected the decode error to be wrapped"),
    }
}

#[test]
fn decode_failure_is_json_error() {
    let response = Response {
        result: Some(From::from("not a number")),
        error: None,
        id: Id::Num(1),
        jsonrpc: None,
    };
    match response.into_result::<u64>() {
        Err(Error::Json(_)) => {}
        _ => panic!("expected a decode error"),
    }
}
