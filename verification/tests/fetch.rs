use fs_caching_server::fetch::{
    body_written, directory_created, fetch_and_cache, fetch_ended, file_installed, file_removed,
    store_answer,
};
use fs_caching_server::proxy::{Step, Transfer};
use fs_caching_server::reply::{BackendAnswer, Reply};
use http::header::{HeaderMap, HeaderValue, ETAG, SERVER};

const FILE: &str = "/cache/a/b.gz";

fn answer(status: u16, body: Option<&[u8]>) -> Option<BackendAnswer> {
    let mut headers = HeaderMap::new();
    headers.insert(SERVER, HeaderValue::from_static("backend"));
    headers.insert(ETAG, HeaderValue::from_static("\"tag\""));
    Some(BackendAnswer { status, headers, body: body.map(|body| body.to_vec()) })
}

fn left(step: Step) -> Reply {
    match step {
        Step::Leave { path, reply } => {
            assert_eq!(path, FILE);
            reply
        }
        step => panic!("still fetching: {:?}", step),
    }
}

fn stored(status: u16) -> Transfer {
    match store_answer(FILE.to_owned(), answer(status, Some(b"body")), ".tmp").unwrap() {
        Step::CreateDirectory { directory, transfer } => {
            assert_eq!(directory, "/cache/a/");
            transfer
        }
        step => panic!("nothing stored: {:?}", step),
    }
}

#[test]
fn successes_are_stored() {
    for status in [200, 206, 299] {
        let transfer = stored(status);
        assert_eq!(transfer.path, FILE);
        assert_eq!(transfer.temporary, "/cache/a/.tmp");
        assert_eq!(transfer.status, status);
        assert_eq!(transfer.body, b"body");
        assert_eq!(transfer.headers.len(), 2);
    }
}

#[test]
fn files_without_a_directory_are_written_at_once() {
    let step = store_answer(String::new(), answer(200, Some(b"body")), ".tmp").unwrap();
    assert!(matches!(step, Step::Write { transfer } if transfer.temporary == ".tmp"));
}

#[test]
fn other_answers_are_passed_on() {
    for status in [100, 199, 300, 304, 404, 500, 999] {
        let step = store_answer(FILE.to_owned(), answer(status, Some(b"no")), ".tmp").unwrap();
        let reply = left(step);
        assert_eq!(reply.status, status);
        assert_eq!(reply.body, b"no");
        assert_eq!(reply.headers.len(), 1);
        assert_eq!(reply.headers[ETAG], "\"tag\"");
    }
}

#[test]
fn failures_of_the_backend_are_gateway_failures() {
    for broken in [None, answer(200, None), answer(404, None), answer(1000, Some(b"x"))] {
        let reply = left(store_answer(FILE.to_owned(), broken, ".tmp").unwrap());
        assert_eq!((reply.status, reply.headers.len(), reply.body.len()), (502, 0, 0));
    }
}

#[test]
fn temporary_files_get_fresh_names() {
    let names: Vec<String> = (0..2)
        .map(|_| match fetch_and_cache(FILE.to_owned(), answer(200, Some(b"body"))).unwrap() {
            Step::CreateDirectory { transfer, .. } => transfer.temporary,
            step => panic!("nothing stored: {:?}", step),
        })
        .collect();
    assert_ne!(names[0], names[1]);
    for name in names {
        assert!(name.starts_with("/cache/a/."));
        assert!(name.ends_with(".in-progress"));
    }
    assert_eq!(left(fetch_and_cache(FILE.to_owned(), None).unwrap()).status, 502);
}

#[test]
fn directories_come_before_files() {
    assert!(matches!(directory_created(stored(200), true), Step::Write { .. }));
    assert_eq!(left(directory_created(stored(200), false)).status, 500);
}

#[test]
fn written_files_are_installed() {
    let step = body_written(stored(200), true);
    assert!(matches!(step, Step::Install { transfer } if transfer.body == b"body"));
    assert_eq!(left(body_written(stored(200), false)).status, 500);
}

#[test]
fn installed_files_are_answered() {
    let reply = left(file_installed(stored(203), true).unwrap());
    assert_eq!(reply.status, 203);
    assert_eq!(reply.body, b"body");
    assert_eq!(reply.headers.len(), 1);
    assert_eq!(reply.headers[ETAG], "\"tag\"");
}

#[test]
fn files_that_cannot_be_installed_are_removed() {
    match file_installed(stored(200), false).unwrap() {
        Step::Discard { path, temporary } => {
            assert_eq!(temporary, "/cache/a/.tmp");
            assert_eq!(left(file_removed(path)).status, 500);
        }
        step => panic!("nothing removed: {:?}", step),
    }
}

#[test]
fn fetches_end_with_their_answer() {
    let reply = left(file_installed(stored(200), true).unwrap());
    assert!(matches!(
        fetch_ended(reply),
        Step::Respond(reply) if reply.status == 200 && reply.body == b"body"
    ));
}
