use fs_caching_server::reply::{
    backend_response, forward, response_with_headers, BackendAnswer, Reply, BAD_GATEWAY,
    BAD_REQUEST, INTERNAL_SERVER_ERROR, NOT_MODIFIED, OK,
};
use http::header::{HeaderMap, HeaderValue, DATE, ETAG};

fn headers() -> HeaderMap {
    let mut headers = HeaderMap::new();
    headers.insert(DATE, HeaderValue::from_static("today"));
    headers.insert(ETAG, HeaderValue::from_static("\"tag\""));
    headers
}

fn is_bare(reply: &Reply, status: u16) -> bool {
    reply.status == status && reply.headers.is_empty() && reply.body.is_empty()
}

#[test]
fn bare_replies_hold_a_status_alone() {
    for status in [OK, NOT_MODIFIED, BAD_REQUEST, INTERNAL_SERVER_ERROR, BAD_GATEWAY] {
        assert!(is_bare(&Reply::bare(status), status));
    }
    assert_eq!(
        [OK, NOT_MODIFIED, BAD_REQUEST, INTERNAL_SERVER_ERROR, BAD_GATEWAY],
        [200, 304, 400, 500, 502]
    );
}

#[test]
fn answers_carry_status_body_and_passing_headers() {
    let reply = response_with_headers(206, b"body".to_vec(), &headers()).unwrap();
    assert_eq!(reply.status, 206);
    assert_eq!(reply.body, b"body");
    assert_eq!(reply.headers.len(), 1);
    assert_eq!(reply.headers[ETAG], "\"tag\"");
}

#[test]
fn backend_answers_are_passed_on() {
    let answer = BackendAnswer { status: 404, headers: headers(), body: Some(b"no".to_vec()) };
    let reply = backend_response(answer).unwrap();
    assert_eq!(reply.status, 404);
    assert_eq!(reply.body, b"no");
    assert_eq!(reply.headers.len(), 1);
}

#[test]
fn half_answers_are_gateway_failures() {
    let answer = BackendAnswer { status: 200, headers: headers(), body: None };
    assert!(is_bare(&backend_response(answer).unwrap(), 502));
}

#[test]
fn numbers_that_are_no_status_are_gateway_failures() {
    for status in [0, 99, 1000, 65535] {
        let answer = BackendAnswer { status, headers: headers(), body: Some(Vec::new()) };
        assert!(is_bare(&backend_response(answer).unwrap(), 502));
    }
    for status in [100, 999] {
        let answer = BackendAnswer { status, headers: headers(), body: Some(Vec::new()) };
        assert_eq!(backend_response(answer).unwrap().status, status);
    }
}

#[test]
fn no_answer_is_a_gateway_failure() {
    assert!(is_bare(&forward(None).unwrap(), 502));
    let answer = BackendAnswer { status: 301, headers: headers(), body: Some(b"x".to_vec()) };
    let reply = forward(Some(answer)).unwrap();
    assert_eq!((reply.status, reply.body), (301, b"x".to_vec()));
}
