use jsonrpc::Error;
use jsonrpc::Request;
use jsonrpc::Response;
use jsonrpc::batch::reconcile;
use jsonrpc::client::validate;
use jsonrpc::ident::Id;

fn request_with_id(id: Id) -> Request {
    Request {
        method: String::from("getinfo"),
        params: vec![],
        id,
        jsonrpc: Some(String::from("2.0")),
    }
}

fn response_with_id(id: Id, result: u64) -> Response {
    Response {
        result: Some(From::from(result)),
        error: None,
        id,
        jsonrpc: Some(String::from("2.0")),
    }
}

#[test]
fn empty_batch_is_refused() {
    let responses = vec![response_with_id(Id::Num(1), 7)];
    match reconcile(&[], responses) {
        Err(Error::EmptyBatch) => {}
        _ => panic!("expected the empty batch error"),
    }
    match reconcile(&[], vec![]) {
        Err(Error::EmptyBatch) => {}
        _ => panic!("expected the empty batch error"),
    }
}

#[test]
fn oversized_batch_is_refused() {
    let requests = vec![request_with_id(Id::Num(1))];
    let responses = vec![
        response_with_id(Id::Num(1), 7),
        response_with_id(Id::Num(2), 19),
    ];
    match reconcile(&requests, responses) {
        Err(Error::WrongBatchResponseSize) => {}
        _ => panic!("expected the wrong size error"),
    }
}

#[test]
fn duplicate_id_reports_first_stored() {
    // two responses share id "5"; the error carries the first one inserted
    let requests = vec![
        request_with_id(Id::Text(String::from("5"))),
        request_with_id(Id::Text(String::from("6"))),
        request_with_id(Id::Text(String::from("7"))),
    ];
    let responses = vec![
        response_with_id(Id::Text(String::from("5")), 7),
        response_with_id(Id::Text(String::from("6")), 11),
        response_with_id(Id::Text(String::from("5")), 19),
    ];
    match reconcile(&requests, responses) {
        Err(Error::BatchDuplicateResponseId(first)) => {
            assert_eq!(first.id, Id::Text(String::from("5")));
            assert_eq!(first.result, Some(From::from(7u64)));
        }
        _ => panic!("expected the duplicate id error"),
    }
}

#[test]
fn unknown_id_reports_first_unmatched() {
    // a response with id "9" answers no request; size and duplicate checks pass
    let requests = vec![
        request_with_id(Id::Text(String::from("1"))),
        request_with_id(Id::Text(String::from("2"))),
    ];
    let responses = vec![
        response_with_id(Id::Text(String::from("1")), 7),
        response_with_id(Id::Text(String::from("9")), 19),
    ];
    match reconcile(&requests, responses) {
        Err(Error::WrongBatchResponseId(unmatched)) => {
            assert_eq!(unmatched.id, Id::Text(String::from("9")));
            assert_eq!(unmatched.result, Some(From::from(19u64)));
        }
        _ => panic!("expected the unknown id error"),
    }
}

#[test]
fn reversed_batch_restores_request_order() {
    // ids 1..=5 answered in reverse order come back positionally aligned
    let n: u64 = 5;
    let requests: Vec<Request> = (1..=n).map(|k| request_with_id(Id::Num(k))).collect();
    let responses: Vec<Response> = (1..=n)
        .rev()
        .map(|k| response_with_id(Id::Num(k), 100 + k))
        .collect();
    let out = reconcile(&requests, responses).unwrap();
    assert_eq!(out.len(), 5);
    for (pos, entry) in out.iter().enumerate() {
        let k = pos as u64 + 1;
        let resp = entry.as_ref().expect("every request was answered");
        assert_eq!(resp.id, Id::Num(k));
        assert_eq!(resp.result, Some(From::from(100 + k)));
    }
}

#[test]
fn partial_batch_scenario() {
    // requests 1, 2, 3; answers arrive for 2 then 1; request 3 stays open
    let requests = vec![
        request_with_id(Id::Text(String::from("1"))),
        request_with_id(Id::Text(String::from("2"))),
        request_with_id(Id::Text(String::from("3"))),
    ];
    let responses = vec![
        response_with_id(Id::Text(String::from("2")), 19),
        response_with_id(Id::Text(String::from("1")), 7),
    ];
    let out = reconcile(&requests, responses).unwrap();
    assert_eq!(out.len(), 3);
    let first = out[0].as_ref().unwrap();
    assert_eq!(first.id, Id::Text(String::from("1")));
    assert_eq!(first.result, Some(From::from(7u64)));
    let second = out[1].as_ref().unwrap();
    assert_eq!(second.id, Id::Text(String::from("2")));
    assert_eq!(second.result, Some(From::from(19u64)));
    assert!(out[2].is_none());
}

#[test]
fn validate_accepts_matching_response() {
    let request = request_with_id(Id::Num(3));
    let response = response_with_id(Id::Num(3), 7);
    let validated = validate(&request, response).unwrap();
    assert_eq!(validated.id, Id::Num(3));
    assert_eq!(validated.result, Some(From::from(7u64)));
}

#[test]
fn validate_tolerates_absent_version() {
    let request = request_with_id(Id::Num(3));
    let mut response = response_with_id(Id::Num(3), 7);
    response.jsonrpc = None;
    assert!(validate(&request, response).is_ok());
}

#[test]
fn validate_rejects_wrong_version() {
    let request = request_with_id(Id::Num(3));
    let mut response = response_with_id(Id::Num(3), 7);
    response.jsonrpc = Some(String::from("1.0"));
    match validate(&request, response) {
        Err(Error::VersionMismatch) => {}
        _ => panic!("expected the version mismatch error"),
    }
}

#[test]
fn validate_rejects_foreign_id() {
    let request = request_with_id(Id::Num(3));
    let response = response_with_id(Id::Num(4), 7);
    match validate(&request, response) {
        Err(Error::NonceMismatch) => {}
        _ => panic!("expected the nonce mismatch error"),
    }
    // id kinds never correlate across kinds
    let request = request_with_id(Id::Text(String::from("3")));
    let response = response_with_id(Id::Num(3), 7);
    match validate(&request, response) {
        Err(Error::NonceMismatch) => {}
        _ => panic!("expected the nonce mismatch error"),
    }
}
