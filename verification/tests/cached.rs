use fs_caching_server::cached::{
    answer_cached, cached_body, cached_headers, cached_response, etag, CachedStep, Metadata,
    Modified,
};
use fs_caching_server::reply::Reply;
use http::header::{
    HeaderMap, HeaderValue, CONTENT_LENGTH, CONTENT_TYPE, ETAG, IF_NONE_MATCH, LAST_MODIFIED,
};

const FILE: Metadata = Metadata {
    len: 1234,
    modified: Modified::After { seconds: 784111777, nanoseconds: 5_999_999 },
};

fn asking(tags: &[&'static str]) -> HeaderMap {
    let mut headers = HeaderMap::new();
    for tag in tags {
        headers.append(IF_NONE_MATCH, HeaderValue::from_static(tag));
    }
    headers
}

fn responded(step: CachedStep) -> Reply {
    match step {
        CachedStep::Respond(reply) => reply,
        CachedStep::ReadBody(_) => panic!("the contents are wanted"),
    }
}

fn wanting(step: CachedStep) -> Reply {
    match step {
        CachedStep::ReadBody(reply) => reply,
        CachedStep::Respond(_) => panic!("the contents are not wanted"),
    }
}

fn has_fields_of_file(reply: &Reply) -> bool {
    reply.headers.len() == 4
        && reply.headers[LAST_MODIFIED] == "Sun, 06 Nov 1994 08:49:37 GMT"
        && reply.headers[CONTENT_TYPE] == "application/gzip"
        && reply.headers[ETAG] == "\"1234-784111777005\""
        && reply.headers[CONTENT_LENGTH] == "1234"
        && reply.body.is_empty()
}

#[test]
fn tags_hold_length_and_milliseconds() {
    assert_eq!(etag(0, 0), "\"0-0\"");
    assert_eq!(etag(12, 1700000000123), "\"12-1700000000123\"");
    assert_ne!(etag(1, 23), etag(12, 3));
    assert_ne!(etag(1, 2), etag(2, 1));
    assert_eq!(etag(7, 8), etag(7, 8));
}

#[test]
fn gets_want_the_contents() {
    let head = wanting(cached_response("/c/a.gz", &FILE, "GET", &asking(&[])));
    assert_eq!(head.status, 200);
    assert!(has_fields_of_file(&head));
}

#[test]
fn heads_get_the_fields_alone() {
    let reply = responded(cached_response("/c/a.gz", &FILE, "HEAD", &asking(&[])));
    assert_eq!(reply.status, 200);
    assert!(has_fields_of_file(&reply));
}

#[test]
fn clients_with_the_file_are_told_so() {
    for method in ["GET", "HEAD"] {
        let tags = asking(&["\"1234-784111777005\"", "\"other\""]);
        let reply = responded(cached_response("/c/a.gz", &FILE, method, &tags));
        assert_eq!(reply.status, 304);
        assert!(has_fields_of_file(&reply));
    }
}

#[test]
fn other_tags_do_not_count() {
    for tags in [
        vec!["\"1234-784111777006\""],
        vec!["\"1235-784111777005\""],
        vec!["1234-784111777005"],
        vec!["W/\"1234-784111777005\""],
        vec!["\"x\", \"1234-784111777005\""],
        vec!["\"other\"", "\"1234-784111777005\""],
        vec!["*"],
        vec![""],
    ] {
        assert_eq!(wanting(cached_response("/c/a.gz", &FILE, "GET", &asking(&tags))).status, 200);
    }
}

#[test]
fn a_tag_counts_until_the_file_changes() {
    let first = wanting(cached_response("/c/a.gz", &FILE, "GET", &asking(&[])));
    let mut request = HeaderMap::new();
    request.insert(IF_NONE_MATCH, first.headers[ETAG].clone());
    assert_eq!(responded(cached_response("/c/a.gz", &FILE, "GET", &request)).status, 304);
    let same_millisecond = Metadata {
        modified: Modified::After { seconds: 784111777, nanoseconds: 5_000_000 },
        ..FILE
    };
    let reply = responded(cached_response("/c/a.gz", &same_millisecond, "GET", &request));
    assert_eq!(reply.status, 304);
    let longer = Metadata { len: 1235, ..FILE };
    assert_eq!(wanting(cached_response("/c/a.gz", &longer, "GET", &request)).status, 200);
    let newer = Metadata {
        modified: Modified::After { seconds: 784111777, nanoseconds: 6_000_000 },
        ..FILE
    };
    assert_eq!(wanting(cached_response("/c/a.gz", &newer, "GET", &request)).status, 200);
}

#[test]
fn content_types_go_by_the_name_of_the_file() {
    for (path, expected) in [
        ("/c/a.png", "image/png"),
        ("/c/a.tar.gz", "application/gzip"),
        ("/c/a.tgz", "application/x-compressed"),
        ("/c/a.unheard-of", "application/octet-stream"),
        ("/c/a", "application/octet-stream"),
        ("", "application/octet-stream"),
    ] {
        let reply = responded(cached_response(path, &FILE, "HEAD", &asking(&[])));
        assert_eq!(reply.headers[CONTENT_TYPE], expected);
    }
}

#[test]
fn files_without_a_usable_time_are_internal_errors() {
    for modified in [Modified::Unknown, Modified::BeforeEpoch] {
        let metadata = Metadata { len: 1, modified };
        let reply = responded(cached_response("/c/a.gz", &metadata, "GET", &asking(&[])));
        assert_eq!(reply.status, 500);
        assert!(reply.headers.is_empty());
        assert!(reply.body.is_empty());
    }
}

#[test]
fn the_epoch_and_the_last_second_have_dates() {
    for (seconds, date) in [
        (0, "Thu, 01 Jan 1970 00:00:00 GMT"),
        (253402300799, "Fri, 31 Dec 9999 23:59:59 GMT"),
    ] {
        let metadata = Metadata { len: 0, modified: Modified::After { seconds, nanoseconds: 0 } };
        let reply = responded(cached_response("/c/a.gz", &metadata, "HEAD", &asking(&[])));
        assert_eq!(reply.headers[LAST_MODIFIED], date);
    }
}

#[test]
fn texts_that_are_no_values_make_for_no_headers() {
    assert!(cached_headers("a\nb", "text/plain", "\"t\"", 1).is_none());
    assert!(cached_headers("date", "text\u{0}/plain", "\"t\"", 1).is_none());
    assert!(cached_headers("date", "text/plain", "\u{7f}", 1).is_none());
    let headers = cached_headers("date", "text/plain", "\"t\"", 99).unwrap();
    assert_eq!(headers.len(), 4);
    assert_eq!(headers[LAST_MODIFIED], "date");
    assert_eq!(headers[CONTENT_LENGTH], "99");
}

#[test]
fn answers_go_by_the_texts_they_are_given() {
    let none = asking(&[]);
    let reply = responded(answer_cached("a\nb", "text/plain", "\"t\"", 1, "GET", &none));
    assert_eq!((reply.status, reply.headers.len()), (500, 0));
    let tagged = asking(&["\"t\""]);
    let reply = responded(answer_cached("date", "text/plain", "\"t\"", 1, "GET", &tagged));
    assert_eq!((reply.status, reply.headers.len()), (304, 4));
    let reply = wanting(answer_cached("date", "text/plain", "\"t\"", 1, "GET", &none));
    assert_eq!((reply.status, reply.headers.len()), (200, 4));
}

#[test]
fn contents_complete_the_answer() {
    let head = wanting(cached_response("/c/a.gz", &FILE, "GET", &asking(&[])));
    let reply = cached_body(head, Some(b"contents".to_vec()));
    assert_eq!(reply.status, 200);
    assert_eq!(reply.headers.len(), 4);
    assert_eq!(reply.body, b"contents");
}

#[test]
fn contents_that_cannot_be_read_are_internal_errors() {
    let head = wanting(cached_response("/c/a.gz", &FILE, "GET", &asking(&[])));
    let reply = cached_body(head, None);
    assert_eq!((reply.status, reply.headers.len(), reply.body.len()), (500, 0, 0));
}
