use fs_caching_server::cached::{Metadata, Modified};
use fs_caching_server::config::{RuntimeConfig, DEFAULT_REGEX};
use fs_caching_server::in_flight::{InFlight, Role};
use fs_caching_server::proxy::{Found, Request, Step};
use fs_caching_server::reply::{BackendAnswer, Reply};
use fs_caching_server::{fetch, proxy};
use http::header::{HeaderMap, HeaderValue, CONTENT_LENGTH, CONTENT_TYPE, DATE};
use std::collections::BTreeMap;

/// A file system, a backend and the fetches under way, all in memory.
struct World {
    files: BTreeMap<String, Vec<u8>>,
    answers: BTreeMap<String, (u16, Vec<u8>)>,
    fetches: InFlight<u32>,
    can_install: bool,
    arrives: Option<Vec<u8>>,
    sent: Vec<String>,
    steps: Vec<String>,
}

impl World {
    fn new() -> World {
        World {
            files: BTreeMap::new(),
            answers: BTreeMap::new(),
            fetches: InFlight::new(),
            can_install: true,
            arrives: None,
            sent: Vec::new(),
            steps: Vec::new(),
        }
    }

    fn look(&self, path: &str) -> Found {
        match self.files.get(path) {
            Some(contents) => Found::File(Metadata {
                len: contents.len() as u64,
                modified: Modified::After { seconds: 1, nanoseconds: 0 },
            }),
            None => Found::Missing,
        }
    }

    fn send(&mut self, request: &Request) -> Option<BackendAnswer> {
        let sent = proxy::send_backend(&config(), request).unwrap();
        self.sent.push(sent.url.clone());
        let (status, body) = self.answers.get(&sent.url)?.clone();
        let mut headers = HeaderMap::new();
        headers.insert(DATE, HeaderValue::from_static("today"));
        headers.insert(CONTENT_TYPE, HeaderValue::from_static("text/x-backend"));
        Some(BackendAnswer { status, headers, body: Some(body) })
    }

    fn run(&mut self, method: &str, path: &str) -> Reply {
        let request = Request {
            method: method.to_owned(),
            path: path.to_owned(),
            query: None,
            headers: HeaderMap::new(),
        };
        self.steps.clear();
        let mut step = proxy::proxy(&config(), &request);
        loop {
            let name = format!("{:?}", step);
            self.steps.push(name.split([' ', '(']).next().unwrap().to_owned());
            step = match step {
                Step::Respond(reply) => return reply,
                Step::Forward => proxy::forwarded(self.send(&request)).unwrap(),
                Step::Look { path } => {
                    let found = self.look(&path);
                    proxy::looked(&request, path, found)
                }
                Step::ReadFile { path, head } => {
                    proxy::file_read(head, self.files.get(&path).cloned())
                }
                Step::Join { path } => match self.fetches.join(&path, 0) {
                    Role::Leader => proxy::joined(path, true),
                    Role::Follower(_) => proxy::joined(path, false),
                },
                Step::Wait { path } => {
                    if let Some(contents) = self.arrives.take() {
                        self.files.insert(path.clone(), contents);
                    }
                    let found = self.look(&path);
                    proxy::waited(&request, path, found)
                }
                Step::Fetch { path } => {
                    fetch::fetch_and_cache(path, self.send(&request)).unwrap()
                }
                Step::CreateDirectory { transfer, .. } => fetch::directory_created(transfer, true),
                Step::Write { transfer } => {
                    self.files.insert(transfer.temporary.clone(), transfer.body.clone());
                    fetch::body_written(transfer, true)
                }
                Step::Install { transfer } => {
                    assert_eq!(self.files[&transfer.temporary], transfer.body);
                    assert!(!self.files.contains_key(&transfer.path));
                    if self.can_install {
                        let contents = self.files.remove(&transfer.temporary).unwrap();
                        self.files.insert(transfer.path.clone(), contents);
                    }
                    fetch::file_installed(transfer, self.can_install).unwrap()
                }
                Step::Discard { path, temporary } => {
                    self.files.remove(&temporary);
                    fetch::file_removed(path)
                }
                Step::Leave { path, reply } => {
                    assert!(self.fetches.finish(&path).is_some());
                    fetch::fetch_ended(reply)
                }
            };
        }
    }
}

fn config() -> RuntimeConfig {
    RuntimeConfig::new("/cache", "http://example.org/", DEFAULT_REGEX).unwrap()
}

fn world(path: &str, status: u16, body: &[u8]) -> World {
    let mut world = World::new();
    world.answers.insert(format!("http://example.org{}", path), (status, body.to_vec()));
    world
}

#[test]
fn what_was_stored_is_served() {
    let mut world = world("/a/b.gz", 200, b"body");
    let first = world.run("GET", "/a/b.gz");
    assert_eq!((first.status, first.body.as_slice()), (200, b"body".as_slice()));
    assert_eq!(first.headers[CONTENT_TYPE], "text/x-backend");
    assert!(!first.headers.contains_key(DATE));
    assert_eq!(
        world.steps,
        ["Look", "Join", "Fetch", "CreateDirectory", "Write", "Install", "Leave", "Respond"]
    );
    assert_eq!(world.files.keys().collect::<Vec<_>>(), ["/cache/a/b.gz"]);
    let later = world.run("GET", "/a//b.gz");
    assert_eq!(later.status, 200);
    assert_eq!(later.body, first.body);
    assert_eq!(later.headers[CONTENT_LENGTH], "4");
    assert_eq!(world.steps, ["Look", "ReadFile", "Respond"]);
    assert_eq!(world.sent.len(), 1);
}

#[test]
fn web_assets_are_stored_unless_set_otherwise() {
    let mut world = world("/logo.png", 200, b"image");
    let reply = world.run("GET", "/logo.png");
    assert_eq!((reply.status, reply.body.as_slice()), (200, b"image".as_slice()));
    assert_eq!(world.files["/cache/logo.png"], b"image");
}

#[test]
fn only_successes_are_stored() {
    for status in [404, 500, 302] {
        let mut world = world("/a.gz", status, b"sorry");
        let reply = world.run("GET", "/a.gz");
        assert_eq!((reply.status, reply.body.as_slice()), (status, b"sorry".as_slice()));
        assert_eq!(world.steps, ["Look", "Join", "Fetch", "Leave", "Respond"]);
        assert!(world.files.is_empty());
    }
}

#[test]
fn only_matching_gets_are_stored() {
    for (method, path) in [("HEAD", "/a.gz"), ("POST", "/a.gz"), ("GET", "/a.txt")] {
        let mut world = world(path, 200, b"body");
        assert_eq!(world.run(method, path).status, 200);
        assert!(world.files.is_empty());
        assert_eq!(world.sent.len(), 1);
    }
}

#[test]
fn failed_installs_leave_nothing_behind() {
    let mut world = world("/a.gz", 200, b"body");
    world.can_install = false;
    assert_eq!(world.run("GET", "/a.gz").status, 500);
    assert_eq!(world.steps.len(), 9);
    assert!(world.files.is_empty());
    world.can_install = true;
    assert_eq!(world.run("GET", "/a.gz").status, 200);
}

#[test]
fn leaders_leave_when_the_backend_fails() {
    let mut world = World::new();
    assert_eq!(world.run("GET", "/a.gz").status, 502);
    assert_eq!(world.steps, ["Look", "Join", "Fetch", "Leave", "Respond"]);
    assert!(world.fetches.finish("/cache/a.gz").is_none());
}

#[test]
fn followers_do_not_fetch() {
    let mut world = world("/a.gz", 200, b"body");
    assert!(matches!(world.fetches.join("/cache/a.gz", 1), Role::Leader));
    assert_eq!(world.run("GET", "/a.gz").status, 500);
    assert_eq!(world.steps, ["Look", "Join", "Wait", "Respond"]);
    assert!(world.sent.is_empty());
}

#[test]
fn followers_get_what_the_leader_stored() {
    let mut world = world("/a.gz", 200, b"body");
    assert!(matches!(world.fetches.join("/cache/a.gz", 1), Role::Leader));
    world.arrives = Some(b"stored".to_vec());
    let reply = world.run("GET", "/a.gz");
    assert_eq!((reply.status, reply.body.as_slice()), (200, b"stored".as_slice()));
    assert_eq!(reply.headers[CONTENT_LENGTH], "6");
    assert_eq!(world.steps, ["Look", "Join", "Wait", "ReadFile", "Respond"]);
    assert!(world.sent.is_empty());
}

#[test]
fn requests_reach_the_backend_at_most_once() {
    for (method, path) in [("GET", "/a.gz"), ("HEAD", "/a.gz"), ("POST", "/a.gz"), ("GET", "/a")] {
        for status in [200, 404] {
            let mut world = world(path, status, b"body");
            world.run(method, path);
            assert_eq!(world.sent.len(), 1);
        }
    }
}

#[test]
fn refused_requests_touch_nothing() {
    let mut world = World::new();
    assert_eq!(world.run("GET", "/../a.gz").status, 400);
    assert_eq!(world.steps, ["Respond"]);
    assert!(world.sent.is_empty());
}
