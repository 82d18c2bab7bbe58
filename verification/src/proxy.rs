//! What is done with a request, step by step.
//!
//! A [`Step`] says what has to be done outside of the library; its outcome goes to the function
//! that is named there, which gives the next step.

use vstd::prelude::*;
use http::HeaderMap;
use crate::cached::{cached_body, cached_response, CachedStep, Metadata};
use crate::config::RuntimeConfig;
use crate::headers::{forward_headers, TooManyHeaders};
use crate::paths::{cache_path, decoded_path};
use crate::reply::{forward, BackendAnswer, Reply, BAD_REQUEST, INTERNAL_SERVER_ERROR};
use crate::text::same_text;

verus! {

/// A request, but for its body: the method, the path and the query as they came, and the header
/// fields.
#[derive(Debug)]
pub struct Request {
    pub method: String,
    pub path: String,
    pub query: Option<String>,
    pub headers: HeaderMap,
}

/// A request to the backend, but for its body.
#[derive(Debug)]
pub struct BackendRequest {
    pub method: String,
    pub url: String,
    pub headers: HeaderMap,
}

/// What was found at a path of the file system.
#[derive(Debug, Clone, Copy, PartialEq, Eq, Structural)]
pub enum Found {
    /// There is nothing.
    Missing,
    /// It cannot be told what there is.
    Failed,
    /// There is a directory.
    Directory,
    /// There is a regular file.
    File(Metadata),
    /// There is something else.
    Other(Metadata),
}

/// A body on its way from the backend to the cache, with what is to be answered.
#[derive(Debug)]
pub struct Transfer {
    pub path: String,
    pub temporary: String,
    pub status: u16,
    pub headers: HeaderMap,
    pub body: Vec<u8>,
}

/// What is to be done next.
#[derive(Debug)]
pub enum Step {
    /// Answer the request: nothing follows.
    Respond(Reply),
    /// Send the request to the backend: see [`forwarded`].
    Forward,
    /// Look what there is at a path: see [`looked`].
    Look { path: String },
    /// Read the contents of a file: see [`file_read`].
    ReadFile { path: String, head: Reply },
    /// Take part in fetching a file: see [`joined`].
    Join { path: String },
    /// Wait until another request has fetched a file, then look what there is: see [`waited`].
    Wait { path: String },
    /// Send the request to the backend, to store the body in a file: see
    /// [`crate::fetch::fetch_and_cache`].
    Fetch { path: String },
    /// Create a directory and those above it: see [`crate::fetch::directory_created`].
    CreateDirectory { directory: String, transfer: Transfer },
    /// Write the body to the temporary file: see [`crate::fetch::body_written`].
    Write { transfer: Transfer },
    /// Rename the temporary file to the path: see [`crate::fetch::file_installed`].
    Install { transfer: Transfer },
    /// Remove the temporary file: see [`crate::fetch::file_removed`].
    Discard { path: String, temporary: String },
    /// End the fetch of a file, waking those who wait for it: see [`crate::fetch::fetch_ended`].
    Leave { path: String, reply: Reply },
}

impl Step {
    /// Whether the step answers with a status alone.
    pub open spec fn responds(self, status: u16) -> bool {
        self matches Step::Respond(reply) && reply.is_bare(status)
    }
}

/// Whether a request is one for a file of the cache, going by its method and by whether its path
/// matches the pattern.
pub open spec fn is_cacheable(method: Seq<char>, matches: bool) -> bool {
    (method == "GET"@ || method == "HEAD"@) && matches
}

/// Whether a step is the first for a request with a decoded path, under a root, going by whether
/// the path matches the pattern.
pub open spec fn is_routed(
    root: Seq<char>,
    method: Seq<char>,
    path: Seq<char>,
    matches: bool,
    step: Step,
) -> bool {
    if !is_cacheable(method, matches) {
        step is Forward
    } else if crate::paths::climbs(path) {
        step.responds(BAD_REQUEST)
    } else {
        step matches Step::Look { path: file } && file@ == crate::paths::joined(
            root,
            crate::paths::parts(path),
        )
    }
}

/// The first step for a request with a decoded path, under a root, going by whether the path
/// matches the pattern.
///
/// A request that is not one for a file of the cache goes to the backend as it came. A path that
/// escapes the root is refused.
pub fn route(root: &str, method: &str, path: &str, matches: bool) -> (step: Step)
    ensures
        is_routed(root@, method@, path@, matches, step),
{
    let cacheable = (same_text(method, "GET") || same_text(method, "HEAD")) && matches;
    if !cacheable {
        return Step::Forward;
    }
    match cache_path(root, path) {
        Ok(path) => Step::Look { path },
        Err(_) => Step::Respond(Reply::bare(BAD_REQUEST)),
    }
}

/// Whether a step is the first for a request.
pub open spec fn is_first(config: RuntimeConfig, request: Request, step: Step) -> bool {
    match crate::paths::decoded_text(request.path@) {
        Some(path) => is_routed(
            config.root(),
            request.method@,
            path,
            crate::config::regex_matches(config.matcher(), path),
            step,
        ),
        None => step.responds(BAD_REQUEST),
    }
}

/// The first step for a request.
///
/// The path is decoded before anything else. One that stands for no text is refused. Under the
/// default pattern, the paths with the endings of common web assets and archives match.
pub fn proxy(config: &RuntimeConfig, request: &Request) -> (step: Step)
    ensures
        is_first(*config, *request, step),
        config.matcher() == crate::config::DEFAULT_REGEX@ ==> (crate::paths::decoded_text(
            request.path@,
        ) matches Some(path) ==> is_routed(
            config.root(),
            request.method@,
            path,
            crate::config::ends_in_one(path, crate::config::default_endings()),
            step,
        )),
{
    match decoded_path(&request.path) {
        Ok(path) => route(config.cache_dir(), &request.method, &path, config.matches(&path)),
        Err(_) => Step::Respond(Reply::bare(BAD_REQUEST)),
    }
}

/// Whether an outcome is the request to the backend that stands for a request.
pub open spec fn is_sent(
    config: RuntimeConfig,
    request: Request,
    result: Option<BackendRequest>,
) -> bool {
    let query = match request.query {
        Some(query) => Some(query@),
        None => None,
    };
    match result {
        Some(sent) => {
            &&& config.reaches(request.path@, query)
            &&& sent.method@ == request.method@
            &&& sent.url@ == config.target(request.path@, query)
            &&& crate::headers::header_lists(sent.headers) == crate::headers::forwarded(
                crate::headers::header_lists(request.headers),
            )
        },
        None => !config.reaches(request.path@, query),
    }
}

/// The request to the backend that stands for a request; none where 32 bits do not count the
/// places in its URL.
///
/// The method stays, the path goes behind that of the backend, the query stays, and the header
/// fields go along but for those that are skipped.
pub fn send_backend(config: &RuntimeConfig, request: &Request) -> (result: Option<BackendRequest>)
    ensures
        is_sent(*config, *request, result),
        ({
            let query = match request.query {
                Some(query) => Some(query@),
                None => None,
            };
            match result {
                Some(sent) => {
                    &&& config.reaches(request.path@, query)
                    &&& sent.method@ == request.method@
                    &&& sent.url@ == config.target(request.path@, query)
                    &&& crate::headers::header_lists(sent.headers) == crate::headers::forwarded(
                        crate::headers::header_lists(request.headers),
                    )
                },
                None => !config.reaches(request.path@, query),
            }
        }),
{
    let query = match &request.query {
        Some(query) => Some(query.as_str()),
        None => None,
    };
    match config.backend_url(&request.path, query) {
        Some(url) => Some(
            BackendRequest {
                method: request.method.as_str().to_owned(),
                url,
                headers: forward_headers(&request.headers),
            },
        ),
        None => None,
    }
}

/// Whether a step is the last, with the outcome of sending the request to the backend.
pub open spec fn is_after_forward(
    answer: Option<BackendAnswer>,
    result: Result<Step, TooManyHeaders>,
) -> bool {
    match result {
        Ok(Step::Respond(reply)) => crate::reply::is_forwarded(answer, Ok(reply)),
        Ok(_) => false,
        Err(error) => crate::reply::is_forwarded(answer, Err(error)),
    }
}

/// What follows on [`Step::Forward`], by the backend's answer, if it gave one.
pub fn forwarded(answer: Option<BackendAnswer>) -> (result: Result<Step, TooManyHeaders>)
    ensures
        is_after_forward(answer, result),
{
    match forward(answer) {
        Ok(reply) => Ok(Step::Respond(reply)),
        Err(error) => Err(error),
    }
}

/// Whether a step answers a request from a file.
pub open spec fn is_served(path: String, metadata: Metadata, request: Request, step: Step) -> bool {
    let lists = crate::headers::header_lists(request.headers);
    match step {
        Step::Respond(reply) => crate::cached::is_cached_response(
            path@,
            metadata,
            request.method@,
            lists,
            CachedStep::Respond(reply),
        ),
        Step::ReadFile { path: file, head } => file == path && crate::cached::is_cached_response(
            path@,
            metadata,
            request.method@,
            lists,
            CachedStep::ReadBody(head),
        ),
        _ => false,
    }
}

/// Answers a request from a file.
fn serve(path: String, metadata: &Metadata, request: &Request) -> (step: Step)
    requires
        crate::cached::is_datable(*metadata),
    ensures
        is_served(path, *metadata, *request, step),
{
    match cached_response(&path, metadata, &request.method, &request.headers) {
        CachedStep::Respond(reply) => Step::Respond(reply),
        CachedStep::ReadBody(head) => Step::ReadFile { path, head },
    }
}

/// Whether the time of modification of what was found, if it is known, can be written as a date.
pub open spec fn is_datable(found: Found) -> bool {
    match found {
        Found::File(metadata) => crate::cached::is_datable(metadata),
        Found::Other(metadata) => crate::cached::is_datable(metadata),
        _ => true,
    }
}

/// Whether a step follows on looking at a path.
pub open spec fn is_after_look(request: Request, path: String, found: Found, step: Step) -> bool {
    match found {
        Found::Directory => step.responds(BAD_REQUEST),
        Found::File(metadata) => is_served(path, metadata, request, step),
        Found::Other(metadata) => is_served(path, metadata, request, step),
        _ => if request.method@ == "HEAD"@ {
            step is Forward
        } else {
            step == (Step::Join { path })
        },
    }
}

/// What follows on [`Step::Look`].
///
/// A directory is refused, and anything else that is there is served. Where nothing is there, or
/// it cannot be told, the request goes to the backend: as it came if it is for the header fields
/// alone, else to store the body.
pub fn looked(request: &Request, path: String, found: Found) -> (step: Step)
    requires
        is_datable(found),
    ensures
        is_after_look(*request, path, found, step),
{
    match found {
        Found::Directory => Step::Respond(Reply::bare(BAD_REQUEST)),
        Found::File(metadata) => serve(path, &metadata, request),
        Found::Other(metadata) => serve(path, &metadata, request),
        _ => if same_text(&request.method, "HEAD") {
            Step::Forward
        } else {
            Step::Join { path }
        },
    }
}

/// Whether a step follows on reading a file.
pub open spec fn is_after_read(head: Reply, contents: Option<Vec<u8>>, step: Step) -> bool {
    step matches Step::Respond(reply) && crate::cached::is_completed(head, contents, reply)
}

/// What follows on [`Step::ReadFile`], by the contents, if they could be read.
pub fn file_read(head: Reply, contents: Option<Vec<u8>>) -> (step: Step)
    ensures
        is_after_read(head, contents, step),
{
    Step::Respond(cached_body(head, contents))
}

/// Whether a step follows on taking part in fetching a file.
pub open spec fn is_after_join(path: String, leader: bool, step: Step) -> bool {
    step == if leader {
        Step::Fetch { path }
    } else {
        Step::Wait { path }
    }
}

/// What follows on [`Step::Join`]: the leader fetches the file, a follower waits.
pub fn joined(path: String, leader: bool) -> (step: Step)
    ensures
        is_after_join(path, leader, step),
{
    if leader {
        Step::Fetch { path }
    } else {
        Step::Wait { path }
    }
}

/// Whether a step follows on waiting for a file.
pub open spec fn is_after_wait(request: Request, path: String, found: Found, step: Step) -> bool {
    match found {
        Found::File(metadata) => is_served(path, metadata, request, step),
        _ => step.responds(INTERNAL_SERVER_ERROR),
    }
}

/// What follows on [`Step::Wait`]: the file that the leader has stored is served. Where there is
/// none, that is an internal error.
pub fn waited(request: &Request, path: String, found: Found) -> (step: Step)
    requires
        found matches Found::File(metadata) ==> crate::cached::is_datable(metadata),
    ensures
        is_after_wait(*request, path, found, step),
{
    match found {
        Found::File(metadata) => serve(path, &metadata, request),
        _ => Step::Respond(Reply::bare(INTERNAL_SERVER_ERROR)),
    }
}

/// Whether a step refuses the request with a status, without header fields and body.
pub open spec fn refuses(step: Step, status: u16) -> bool {
    step matches Step::Respond(reply) && reply.status == status && reply.body@.len() == 0
        && crate::headers::header_lists(reply.headers).dom() == Set::<Seq<char>>::empty()
}

/// The first step goes by the decoded path alone. A request goes to the backend as it came exactly
/// if its method is neither `GET` nor `HEAD`, or the path does not match the pattern. Of the others,
/// those with a segment `..` are refused with status 400, like paths that stand for no text, and the
/// rest look for the file of the path below the root.
pub proof fn first_steps_go_by_the_decoded_path(config: RuntimeConfig, request: Request, step: Step)
    requires
        is_first(config, request, step),
    ensures
        match crate::paths::decoded_text(request.path@) {
            Some(path) => {
                let wanted = (request.method@ == "GET"@ || request.method@ == "HEAD"@)
                    && crate::config::regex_matches(config.matcher(), path);
                let climbing = crate::paths::segments(path).contains(seq!['.', '.']);
                &&& step is Forward <==> !wanted
                &&& step is Look <==> wanted && !climbing
                &&& wanted && climbing ==> refuses(step, 400)
                &&& step matches Step::Look { path: file } ==> file@ == crate::paths::joined(
                    config.root(),
                    crate::paths::parts(path),
                )
            },
            None => refuses(step, 400),
        },
{
}

/// The part of a step that answers from a file.
pub open spec fn cached_step(step: Step) -> CachedStep {
    match step {
        Step::ReadFile { head, .. } => CachedStep::ReadBody(head),
        Step::Respond(reply) => CachedStep::Respond(reply),
        _ => arbitrary(),
    }
}

/// What is found decides what follows: a directory is refused with status 400; a file, or anything
/// else that is there, is answered from; and where nothing is there, or it cannot be told, a `HEAD`
/// request goes to the backend as it came and any other takes part in fetching the file.
pub proof fn looks_decide_what_follows(request: Request, path: String, found: Found, step: Step)
    requires
        is_after_look(request, path, found, step),
    ensures
        found == Found::Directory ==> refuses(step, 400),
        found == Found::Missing || found == Found::Failed ==> if request.method@ == "HEAD"@ {
            step is Forward
        } else {
            step == (Step::Join { path })
        },
        forall|metadata: Metadata|
            found == Found::File(metadata) || found == Found::Other(metadata) ==> {
                &&& step is Respond || step is ReadFile
                &&& step matches Step::ReadFile { path: file, .. } ==> file == path
                &&& #[trigger] crate::cached::is_cached_response(
                    path@,
                    metadata,
                    request.method@,
                    crate::headers::header_lists(request.headers),
                    cached_step(step),
                )
            },
{
}

/// After waiting, only a regular file is answered from; anything else is an internal error.
pub proof fn followers_need_a_file(request: Request, path: String, found: Found, step: Step)
    requires
        is_after_wait(request, path, found, step),
    ensures
        !(found is File) ==> refuses(step, 500),
        forall|metadata: Metadata|
            found == Found::File(metadata) ==> {
                &&& step is Respond || step is ReadFile
                &&& step matches Step::ReadFile { path: file, .. } ==> file == path
                &&& #[trigger] crate::cached::is_cached_response(
                    path@,
                    metadata,
                    request.method@,
                    crate::headers::header_lists(request.headers),
                    cached_step(step),
                )
            },
{
}

/// The leader fetches the very file, and a follower waits for it.
pub proof fn leaders_fetch_and_followers_wait(path: String, leader: bool, step: Step)
    requires
        is_after_join(path, leader, step),
    ensures
        leader ==> step == (Step::Fetch { path }),
        !leader ==> step == (Step::Wait { path }),
{
}

/// A file that was read is the body of the answer, whose status and header fields were settled
/// before. A file that could not be read is an internal error.
pub proof fn files_read_are_answered(head: Reply, contents: Option<Vec<u8>>, step: Step)
    requires
        is_after_read(head, contents, step),
    ensures
        match contents {
            Some(bytes) => step matches Step::Respond(reply) && reply.body@ == bytes@ && reply.status
                == head.status && reply.headers == head.headers,
            None => refuses(step, 500),
        },
{
}

/// A request that went to the backend as it came is answered as the backend answered: with its
/// status, its very body and its header fields, but for those that are held back. A backend that
/// gave no whole answer makes for status 502.
pub proof fn forwarded_requests_get_the_backend_answer(
    answer: Option<BackendAnswer>,
    result: Result<Step, TooManyHeaders>,
)
    requires
        is_after_forward(answer, result),
    ensures
        match answer {
            Some(BackendAnswer { status, headers, body: Some(body) }) if 100 <= status <= 999 => {
                match result {
                    Ok(step) => step matches Step::Respond(reply) && reply.status == status
                        && reply.body@ == body@ && crate::headers::same_fields(
                        crate::headers::header_lists(headers),
                        crate::headers::header_lists(reply.headers),
                    ),
                    Err(_) => crate::headers::passed(crate::headers::header_lists(headers)).len()
                        > 6553,
                }
            },
            _ => result matches Ok(step) && refuses(step, 502),
        },
{
    if let Some(answer) = answer {
        crate::headers::passed_fields_are_the_same(crate::headers::header_lists(answer.headers));
    }
}

/// A request reaches the backend with its method, with its path, undecoded, behind the path of the
/// backend, with its query, if it has one, and with all its header fields but `date`, `server` and
/// `host`.
pub proof fn requests_reach_the_backend_as_they_came(
    config: RuntimeConfig,
    request: Request,
    sent: BackendRequest,
    base: Seq<char>,
    slashes: nat,
    name: Seq<char>,
)
    requires
        is_sent(config, request, Some(sent)),
        base.len() == 0 || base.last() != '/',
        crate::config::parsed_url(config.backend())->Ok_0.2 == base + Seq::new(
            slashes,
            |i: int| '/',
        ),
    ensures
        sent.method@ == request.method@,
        sent.url@ == crate::config::url_with_query(
            crate::config::url_with_path(config.backend(), base + request.path@),
            match request.query {
                Some(query) => Some(query@),
                None => None,
            },
        ),
        crate::headers::header_lists(sent.headers).contains_key(name)
            <==> crate::headers::header_lists(request.headers).contains_key(name) && name
            != "date"@ && name != "server"@ && name != "host"@,
        crate::headers::header_lists(sent.headers).contains_key(name)
            ==> crate::headers::header_lists(sent.headers)[name] == crate::headers::header_lists(
            request.headers,
        )[name],
{
    let query = match request.query {
        Some(query) => Some(query@),
        None => None,
    };
    crate::config::backend_urls_take_path_then_query(
        config,
        base,
        slashes,
        request.path@,
        query,
    );
    crate::headers::only_skipped_headers_are_held_back(
        crate::headers::header_lists(request.headers),
        name,
    );
}

/// A request has a request to the backend exactly where its URL at the backend can be written.
pub proof fn requests_are_sent_where_they_reach(
    config: RuntimeConfig,
    request: Request,
    result: Option<BackendRequest>,
)
    requires
        is_sent(config, request, result),
    ensures
        result is Some <==> config.reaches(
            request.path@,
            match request.query {
                Some(query) => Some(query@),
                None => None,
            },
        ),
{
}

} // verus!
