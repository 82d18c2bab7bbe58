use fs_caching_server::headers::{
    forward_headers, is_skipped, relay_fields, relay_headers, Field, TooManyHeaders, ROOM,
};
use http::header::{HeaderMap, HeaderName, HeaderValue};

fn map(fields: &[(&str, &str)]) -> HeaderMap {
    let mut map = HeaderMap::new();
    for (name, value) in fields {
        map.append(
            HeaderName::from_bytes(name.as_bytes()).unwrap(),
            HeaderValue::from_str(value).unwrap(),
        );
    }
    map
}

fn values(map: &HeaderMap, name: &str) -> Vec<Vec<u8>> {
    map.get_all(name).iter().map(|value| value.as_bytes().to_vec()).collect()
}

fn field(name: &str, value: &[u8]) -> Field {
    Field { name: name.to_owned(), value: value.to_vec() }
}

#[test]
fn three_fields_are_skipped() {
    assert!(is_skipped("date"));
    assert!(is_skipped("server"));
    assert!(is_skipped("host"));
    assert!(!is_skipped("Date"));
    assert!(!is_skipped("hosts"));
    assert!(!is_skipped(""));
}

#[test]
fn requests_keep_all_but_the_skipped_fields() {
    let sent = forward_headers(&map(&[
        ("Host", "proxy"),
        ("Accept", "text/html"),
        ("accept", "text/plain"),
        ("Date", "today"),
        ("Server", "me"),
        ("X-Odd", "tab\there"),
    ]));
    assert_eq!(sent.keys_len(), 2);
    assert_eq!(values(&sent, "accept"), vec![b"text/html".to_vec(), b"text/plain".to_vec()]);
    assert_eq!(values(&sent, "x-odd"), vec![b"tab\there".to_vec()]);
}

#[test]
fn answers_keep_all_but_the_skipped_fields() {
    let relayed = relay_headers(&map(&[
        ("Set-Cookie", "a=1"),
        ("Date", "today"),
        ("ETag", "\"x\""),
        ("Set-Cookie", "b=2"),
        ("Server", "me"),
        ("Host", "backend"),
    ]))
    .unwrap();
    assert_eq!(relayed.keys_len(), 2);
    assert_eq!(values(&relayed, "set-cookie"), vec![b"a=1".to_vec(), b"b=2".to_vec()]);
    assert_eq!(values(&relayed, "etag"), vec![b"\"x\"".to_vec()]);
}

#[test]
fn answers_lose_names_that_are_not_valid() {
    let mut answer = map(&[("X-Good", "1")]);
    answer.append(
        HeaderName::from_lowercase(b"x\"bad").unwrap(),
        HeaderValue::from_static("2"),
    );
    assert_eq!(answer.keys_len(), 2);
    let relayed = relay_headers(&answer).unwrap();
    assert_eq!(relayed.keys_len(), 1);
    assert_eq!(values(&relayed, "x-good"), vec![b"1".to_vec()]);
}

#[test]
fn fields_that_are_not_valid_are_left_out() {
    let relayed = relay_fields(&vec![
        field("X-Good", b"1"),
        field("x bad", b"2"),
        field("", b"3"),
        field("x-worse", b"line\nbreak"),
        field("x-worse", b"\x7f"),
        field("x-worse", b"\xff\t ok"),
        field("x-good", b""),
        field("date", b"now"),
    ])
    .unwrap();
    assert_eq!(relayed.keys_len(), 2);
    assert_eq!(values(&relayed, "x-good"), vec![b"1".to_vec(), b"".to_vec()]);
    assert_eq!(values(&relayed, "x-worse"), vec![b"\xff\t ok".to_vec()]);
}

#[test]
fn names_are_checked_after_skipping() {
    // A name that only differs in case is not skipped, and is put in lower case.
    let relayed = relay_fields(&vec![field("Date", b"now")]).unwrap();
    assert_eq!(values(&relayed, "date"), vec![b"now".to_vec()]);
}

#[test]
fn relaying_again_changes_nothing() {
    let answer = map(&[("Date", "today"), ("A", "1"), ("A", "2"), ("B", "3")]);
    let once = relay_headers(&answer).unwrap();
    assert_eq!(relay_headers(&once).unwrap(), once);
    let sent = forward_headers(&answer);
    assert_eq!(forward_headers(&sent), sent);
}

#[test]
fn many_names_fit() {
    let fields: Vec<Field> = (0..ROOM).map(|i| field(&format!("n{}", i), b"v")).collect();
    assert_eq!(relay_fields(&fields).unwrap().keys_len(), ROOM);
}

#[test]
fn too_many_names_are_reported() {
    let fields: Vec<Field> = (0..40000).map(|i| field(&format!("n{}", i), b"v")).collect();
    assert_eq!(relay_fields(&fields).unwrap_err(), TooManyHeaders);
}
