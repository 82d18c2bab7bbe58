use fs_caching_server::cached::{Metadata, Modified};
use fs_caching_server::config::{RuntimeConfig, DEFAULT_REGEX};
use fs_caching_server::proxy::{
    file_read, forwarded, joined, looked, proxy, route, send_backend, waited, Found, Request, Step,
};
use fs_caching_server::reply::BackendAnswer;
use http::header::{HeaderMap, HeaderValue, ACCEPT, HOST, IF_NONE_MATCH};

const FILE: Metadata = Metadata {
    len: 3,
    modified: Modified::After { seconds: 784111777, nanoseconds: 0 },
};

fn config() -> RuntimeConfig {
    RuntimeConfig::new("/cache", "http://example.org/base/", "\\.(gz|png)$").unwrap()
}

fn request(method: &str, path: &str) -> Request {
    Request {
        method: method.to_owned(),
        path: path.to_owned(),
        query: None,
        headers: HeaderMap::new(),
    }
}

fn status(step: &Step) -> u16 {
    match step {
        Step::Respond(reply) => reply.status,
        _ => panic!("no answer: {:?}", step),
    }
}

#[test]
fn matching_requests_look_for_their_file() {
    for method in ["GET", "HEAD"] {
        let step = proxy(&config(), &request(method, "/a/b%20c.gz"));
        assert!(matches!(step, Step::Look { path } if path == "/cache/a/b c.gz"));
    }
}

#[test]
fn other_requests_go_to_the_backend() {
    for (method, path) in [
        ("POST", "/a.gz"),
        ("PUT", "/../a.gz"),
        ("get", "/a.gz"),
        ("GET", "/a.html"),
        ("GET", "/../a.html"),
        ("HEAD", "/"),
    ] {
        assert!(matches!(proxy(&config(), &request(method, path)), Step::Forward));
    }
}

#[test]
fn paths_match_as_decoded() {
    let step = proxy(&config(), &request("GET", "/a%2egz"));
    assert!(matches!(step, Step::Look { path } if path == "/cache/a.gz"));
    assert!(matches!(proxy(&config(), &request("GET", "/a.gz%20")), Step::Forward));
}

#[test]
fn web_assets_are_cached_unless_set_otherwise() {
    let config = RuntimeConfig::new("/cache", "http://example.org/", DEFAULT_REGEX).unwrap();
    for name in ["logo.png", "site.css", "index.html", "app.js", "a.tgz"] {
        let step = proxy(&config, &request("GET", &format!("/{}", name)));
        assert!(matches!(step, Step::Look { path } if path == format!("/cache/{}", name)));
    }
    assert!(matches!(proxy(&config, &request("GET", "/notes.txt")), Step::Forward));
}

#[test]
fn bad_paths_are_refused() {
    for path in ["/../a.gz", "/a/../b.gz", "/%2e%2e/a.gz", "/a%2f..%2fb.gz"] {
        assert_eq!(status(&proxy(&config(), &request("GET", path))), 400);
    }
    for method in ["GET", "POST"] {
        assert_eq!(status(&proxy(&config(), &request(method, "/%ff"))), 400);
    }
}

#[test]
fn routes_go_by_method_path_and_match() {
    assert!(matches!(route("/c", "GET", "/x", true), Step::Look { path } if path == "/c/x"));
    assert!(matches!(route("/c", "HEAD", "/x", true), Step::Look { .. }));
    assert!(matches!(route("/c", "GET", "/x", false), Step::Forward));
    assert!(matches!(route("/c", "DELETE", "/x", true), Step::Forward));
    assert_eq!(status(&route("/c", "GET", "/..", true)), 400);
    assert!(matches!(route("/c", "GET", "/..", false), Step::Forward));
}

#[test]
fn directories_are_refused() {
    let step = looked(&request("GET", "/a.gz"), "/cache/a.gz".to_owned(), Found::Directory);
    assert_eq!(status(&step), 400);
}

#[test]
fn files_are_served() {
    for found in [Found::File(FILE), Found::Other(FILE)] {
        let get = looked(&request("GET", "/a.gz"), "/cache/a.gz".to_owned(), found);
        assert!(matches!(
            get,
            Step::ReadFile { path, head } if path == "/cache/a.gz" && head.status == 200
        ));
        let head = looked(&request("HEAD", "/a.gz"), "/cache/a.gz".to_owned(), found);
        assert_eq!(status(&head), 200);
        let mut known = request("GET", "/a.gz");
        known.headers.insert(IF_NONE_MATCH, HeaderValue::from_static("\"3-784111777000\""));
        assert_eq!(status(&looked(&known, "/cache/a.gz".to_owned(), found)), 304);
    }
}

#[test]
fn missing_files_are_fetched() {
    for found in [Found::Missing, Found::Failed] {
        let step = looked(&request("GET", "/a.gz"), "/cache/a.gz".to_owned(), found);
        assert!(matches!(step, Step::Join { path } if path == "/cache/a.gz"));
        let step = looked(&request("HEAD", "/a.gz"), "/cache/a.gz".to_owned(), found);
        assert!(matches!(step, Step::Forward));
    }
}

#[test]
fn leaders_fetch_and_followers_wait() {
    let leader = joined("/cache/a.gz".to_owned(), true);
    assert!(matches!(leader, Step::Fetch { path } if path == "/cache/a.gz"));
    let follower = joined("/cache/a.gz".to_owned(), false);
    assert!(matches!(follower, Step::Wait { path } if path == "/cache/a.gz"));
}

#[test]
fn followers_serve_what_was_stored() {
    let get = request("GET", "/a.gz");
    let step = waited(&get, "/cache/a.gz".to_owned(), Found::File(FILE));
    assert!(matches!(step, Step::ReadFile { path, .. } if path == "/cache/a.gz"));
    for found in [Found::Missing, Found::Failed, Found::Directory, Found::Other(FILE)] {
        assert_eq!(status(&waited(&get, "/cache/a.gz".to_owned(), found)), 500);
    }
}

#[test]
fn contents_are_answered() {
    let get = request("GET", "/a.gz");
    let head = || match looked(&get, "/cache/a.gz".to_owned(), Found::File(FILE)) {
        Step::ReadFile { head, .. } => head,
        step => panic!("nothing to read: {:?}", step),
    };
    assert!(matches!(
        file_read(head(), Some(b"abc".to_vec())),
        Step::Respond(reply) if reply.status == 200 && reply.body == b"abc"
    ));
    assert_eq!(status(&file_read(head(), None)), 500);
}

#[test]
fn the_backend_gets_the_request() {
    let mut sent = request("POST", "/a%20b");
    sent.query = Some("q=1".to_owned());
    sent.headers.insert(HOST, HeaderValue::from_static("proxy"));
    sent.headers.insert(ACCEPT, HeaderValue::from_static("*/*"));
    let backend = send_backend(&config(), &sent).unwrap();
    assert_eq!(backend.method, "POST");
    assert_eq!(backend.url, "http://example.org/base/a%20b?q=1");
    assert_eq!(backend.headers.len(), 1);
    assert_eq!(backend.headers[ACCEPT], "*/*");
}

#[test]
fn the_backend_answers_the_client() {
    let answer = BackendAnswer {
        status: 201,
        headers: HeaderMap::new(),
        body: Some(b"made".to_vec()),
    };
    assert!(matches!(
        forwarded(Some(answer)).unwrap(),
        Step::Respond(reply) if reply.status == 201 && reply.body == b"made"
    ));
    assert_eq!(status(&forwarded(None).unwrap()), 502);
}
