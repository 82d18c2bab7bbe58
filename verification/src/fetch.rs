//! Fetching a file from the backend into the cache, step by step.
//!
//! The body goes to a temporary file first and is renamed from there.

use vstd::prelude::*;
use crate::headers::TooManyHeaders;
use crate::proxy::{Step, Transfer};
use crate::reply::{
    backend_response, response_with_headers, BackendAnswer, Reply, BAD_GATEWAY,
    INTERNAL_SERVER_ERROR,
};
use crate::staging::{fresh_temporary_name, parent, with_file_name};

verus! {

/// Whether a status code says that the backend succeeded.
pub open spec fn is_success(status: u16) -> bool {
    200 <= status < 300
}

/// Whether a step ends the fetch of a file with a status alone.
pub open spec fn leaves(path: String, status: u16, step: Step) -> bool {
    step matches Step::Leave { path: file, reply } && file == path && reply.is_bare(status)
}

/// Whether a transfer takes the answer of a backend to a file, by way of a temporary name.
pub open spec fn is_transfer(
    path: String,
    answer: BackendAnswer,
    name: Seq<char>,
    transfer: Transfer,
) -> bool {
    &&& transfer.path == path
    &&& transfer.temporary@ == crate::staging::renamed(path@, name)
    &&& transfer.status == answer.status
    &&& transfer.headers == answer.headers
    &&& answer.body == Some(transfer.body)
}

/// Whether a step begins to store the answer of a backend in a file, by way of a temporary name:
/// by creating the directory of the file, if it lies in one.
pub open spec fn is_stored(path: String, answer: BackendAnswer, name: Seq<char>, step: Step) -> bool {
    match crate::staging::last_component(path@) {
        Some((start, _)) => step matches Step::CreateDirectory { directory, transfer } && directory@
            == path@.take(start) && is_transfer(path, answer, name, transfer),
        None => step matches Step::Write { transfer } && is_transfer(path, answer, name, transfer),
    }
}

/// Whether the outcome follows on the backend's answer, with a temporary name at hand.
pub open spec fn is_after_fetch(
    path: String,
    answer: Option<BackendAnswer>,
    name: Seq<char>,
    result: Result<Step, TooManyHeaders>,
) -> bool {
    match answer {
        Some(answer) => if !is_success(answer.status) {
            match result {
                Ok(Step::Leave { path: file, reply }) => file == path
                    && crate::reply::is_backend_response(answer, Ok(reply)),
                Ok(_) => false,
                Err(error) => crate::reply::is_backend_response(answer, Err(error)),
            }
        } else if answer.body is None {
            result matches Ok(step) && leaves(path, BAD_GATEWAY, step)
        } else {
            result matches Ok(step) && is_stored(path, answer, name, step)
        },
        None => result matches Ok(step) && leaves(path, BAD_GATEWAY, step),
    }
}

/// What follows on [`Step::Fetch`], by the backend's answer, if it gave one, with a temporary name
/// at hand.
///
/// Only an answer that says success, with its whole body, is stored. Any other is passed on as it
/// is, and no answer, or half of one, means that the gateway failed.
pub fn store_answer(path: String, answer: Option<BackendAnswer>, name: &str) -> (result: Result<
    Step,
    TooManyHeaders,
>)
    ensures
        is_after_fetch(path, answer, name@, result),
{
    let answer = match answer {
        Some(answer) => answer,
        None => return Ok(Step::Leave { path, reply: Reply::bare(BAD_GATEWAY) }),
    };
    if answer.status < 200 || answer.status >= 300 {
        return match backend_response(answer) {
            Ok(reply) => Ok(Step::Leave { path, reply }),
            Err(error) => Err(error),
        };
    }
    let body = match answer.body {
        Some(body) => body,
        None => return Ok(Step::Leave { path, reply: Reply::bare(BAD_GATEWAY) }),
    };
    let directory = parent(&path);
    let temporary = with_file_name(&path, name);
    let transfer = Transfer {
        path,
        temporary,
        status: answer.status,
        headers: answer.headers,
        body,
    };
    match directory {
        Some(directory) => Ok(Step::CreateDirectory { directory, transfer }),
        None => Ok(Step::Write { transfer }),
    }
}

/// What follows on [`Step::Fetch`], by the backend's answer, if it gave one. The temporary file
/// gets a fresh name.
pub fn fetch_and_cache(path: String, answer: Option<BackendAnswer>) -> (result: Result<
    Step,
    TooManyHeaders,
>)
    ensures
        exists|id: Seq<char>|
            crate::staging::is_identifier(id) && is_after_fetch(
                path,
                answer,
                #[trigger] crate::staging::temporary_text(id),
                result,
            ),
{
    store_answer(path, answer, &fresh_temporary_name())
}

/// Whether a step follows on creating the directory.
pub open spec fn is_after_create(transfer: Transfer, done: bool, step: Step) -> bool {
    if done {
        step == (Step::Write { transfer })
    } else {
        leaves(transfer.path, INTERNAL_SERVER_ERROR, step)
    }
}

/// What follows on [`Step::CreateDirectory`].
pub fn directory_created(transfer: Transfer, done: bool) -> (step: Step)
    ensures
        is_after_create(transfer, done, step),
{
    if done {
        Step::Write { transfer }
    } else {
        Step::Leave { path: transfer.path, reply: Reply::bare(INTERNAL_SERVER_ERROR) }
    }
}

/// Whether a step follows on writing the temporary file.
pub open spec fn is_after_write(transfer: Transfer, done: bool, step: Step) -> bool {
    if done {
        step == (Step::Install { transfer })
    } else {
        leaves(transfer.path, INTERNAL_SERVER_ERROR, step)
    }
}

/// What follows on [`Step::Write`].
pub fn body_written(transfer: Transfer, done: bool) -> (step: Step)
    ensures
        is_after_write(transfer, done, step),
{
    if done {
        Step::Install { transfer }
    } else {
        Step::Leave { path: transfer.path, reply: Reply::bare(INTERNAL_SERVER_ERROR) }
    }
}

/// Whether the outcome follows on renaming the temporary file.
pub open spec fn is_after_install(
    transfer: Transfer,
    done: bool,
    result: Result<Step, TooManyHeaders>,
) -> bool {
    if done {
        match result {
            Ok(Step::Leave { path, reply }) => path == transfer.path && crate::reply::passes_on(
                Ok(reply),
                transfer.status,
                transfer.headers,
                transfer.body@,
            ),
            Ok(_) => false,
            Err(error) => crate::reply::passes_on(
                Err(error),
                transfer.status,
                transfer.headers,
                transfer.body@,
            ),
        }
    } else {
        result matches Ok(Step::Discard { path, temporary }) && path == transfer.path && temporary
            == transfer.temporary
    }
}

/// What follows on [`Step::Install`]: with the file in its place, the backend's answer is passed
/// on. Without, the temporary file has to go.
pub fn file_installed(transfer: Transfer, done: bool) -> (result: Result<Step, TooManyHeaders>)
    ensures
        is_after_install(transfer, done, result),
{
    if done {
        match response_with_headers(transfer.status, transfer.body, &transfer.headers) {
            Ok(reply) => Ok(Step::Leave { path: transfer.path, reply }),
            Err(error) => Err(error),
        }
    } else {
        Ok(Step::Discard { path: transfer.path, temporary: transfer.temporary })
    }
}

/// What follows on [`Step::Discard`], whether or not the temporary file could be removed.
pub fn file_removed(path: String) -> (step: Step)
    ensures
        leaves(path, INTERNAL_SERVER_ERROR, step),
{
    Step::Leave { path, reply: Reply::bare(INTERNAL_SERVER_ERROR) }
}

/// What follows on [`Step::Leave`]: the answer.
pub fn fetch_ended(reply: Reply) -> (step: Step)
    ensures
        step == Step::Respond(reply),
{
    Step::Respond(reply)
}

/// Whether a step ends the fetch of a file with a status, without header fields and body.
pub open spec fn gives_up(path: String, status: u16, step: Step) -> bool {
    step matches Step::Leave { path: file, reply } && file == path && reply.status == status
        && reply.body@.len() == 0 && crate::headers::header_lists(reply.headers).dom() == Set::<
        Seq<char>,
    >::empty()
}

/// Exactly the answers with a status from 200 to 299 and a whole body are stored: with that body,
/// status and header fields, in the very file, by way of the temporary name beside it. All others
/// are passed on with their status, very body and header fields, but for those that are held back;
/// and where there is no whole answer, or its status is no number of three digits, the reply has
/// status 502.
pub proof fn only_successes_are_stored(
    path: String,
    answer: Option<BackendAnswer>,
    name: Seq<char>,
    result: Result<Step, TooManyHeaders>,
)
    requires
        is_after_fetch(path, answer, name, result),
    ensures
        match answer {
            Some(BackendAnswer { status, headers, body: Some(body) }) if 200 <= status <= 299 => {
                result matches Ok(step) && {
                    &&& step is CreateDirectory || step is Write
                    &&& step is CreateDirectory <==> crate::staging::last_component(path@) is Some
                    &&& step matches Step::CreateDirectory { directory, .. } ==> (
                    crate::staging::last_component(path@) matches Some((start, _)) && directory@
                        == path@.take(start))
                    &&& crate::runs::transfer_of(step) matches Some(transfer) && transfer.path == path
                        && transfer.temporary@ == crate::staging::renamed(path@, name)
                        && transfer.status == status && transfer.headers == headers && transfer.body
                        == body
                }
            },
            Some(BackendAnswer { status, headers, body: Some(body) }) if 100 <= status <= 999 => {
                match result {
                    Ok(step) => step matches Step::Leave { path: file, reply } && file == path
                        && reply.status == status && reply.body@ == body@
                        && crate::headers::same_fields(
                        crate::headers::header_lists(headers),
                        crate::headers::header_lists(reply.headers),
                    ),
                    Err(_) => crate::headers::passed(crate::headers::header_lists(headers)).len()
                        > 6553,
                }
            },
            _ => result matches Ok(step) && gives_up(path, 502, step),
        },
{
    if let Some(answer) = answer {
        crate::headers::passed_fields_are_the_same(crate::headers::header_lists(answer.headers));
    }
}

/// A body goes on, unchanged, from the directory to the temporary file and from there to its place,
/// and only as long as each step succeeds. A step that fails ends the fetch with status 500; where
/// that is the last one, the temporary file is removed first.
pub proof fn transfers_go_on_only_by_success(
    transfer: Transfer,
    done: bool,
    created: Step,
    written: Step,
    installed: Result<Step, TooManyHeaders>,
    removed: Step,
)
    requires
        is_after_create(transfer, done, created),
        is_after_write(transfer, done, written),
        is_after_install(transfer, done, installed),
        leaves(transfer.path, INTERNAL_SERVER_ERROR, removed),
    ensures
        done ==> created == (Step::Write { transfer }) && written == (Step::Install { transfer }),
        !done ==> gives_up(transfer.path, 500, created) && gives_up(transfer.path, 500, written),
        !done ==> (installed matches Ok(Step::Discard { path, temporary }) && path == transfer.path
            && temporary == transfer.temporary),
        gives_up(transfer.path, 500, removed),
        done ==> match installed {
            Ok(step) => step matches Step::Leave { path, reply } && path == transfer.path
                && reply.status == transfer.status && reply.body@ == transfer.body@
                && crate::headers::same_fields(
                crate::headers::header_lists(transfer.headers),
                crate::headers::header_lists(reply.headers),
            ),
            Err(_) => crate::headers::passed(crate::headers::header_lists(transfer.headers)).len()
                > 6553,
        },
{
    crate::headers::passed_fields_are_the_same(crate::headers::header_lists(transfer.headers));
}

} // verus!
