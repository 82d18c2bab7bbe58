//! What holds of a request as a whole, whatever happens outside of the library on the way.

use vstd::prelude::*;
use crate::config::RuntimeConfig;
use crate::proxy::{Found, Request, Step, Transfer};
use crate::reply::{BackendAnswer, Reply, BAD_REQUEST, INTERNAL_SERVER_ERROR, OK};

verus! {

/// Whether one step may follow on another, for some outcome of the first.
pub open spec fn may_follow(request: Request, before: Step, after: Step) -> bool {
    match before {
        Step::Respond(_) => false,
        Step::Forward => exists|answer: Option<BackendAnswer>|
            crate::proxy::is_after_forward(answer, Ok(after)),
        Step::Look { path } => exists|found: Found|
            crate::proxy::is_after_look(request, path, found, after),
        Step::ReadFile { head, .. } => exists|contents: Option<Vec<u8>>|
            crate::proxy::is_after_read(head, contents, after),
        Step::Join { path } => exists|leader: bool|
            crate::proxy::is_after_join(path, leader, after),
        Step::Wait { path } => exists|found: Found|
            crate::proxy::is_after_wait(request, path, found, after),
        Step::Fetch { path } => exists|answer: Option<BackendAnswer>, id: Seq<char>|
            crate::staging::is_identifier(id) && #[trigger] crate::fetch::is_after_fetch(
                path,
                answer,
                crate::staging::temporary_text(id),
                Ok(after),
            ),
        Step::CreateDirectory { transfer, .. } => exists|done: bool|
            crate::fetch::is_after_create(transfer, done, after),
        Step::Write { transfer } => exists|done: bool|
            crate::fetch::is_after_write(transfer, done, after),
        Step::Install { transfer } => exists|done: bool|
            crate::fetch::is_after_install(transfer, done, Ok(after)),
        Step::Discard { path, .. } => crate::fetch::leaves(path, INTERNAL_SERVER_ERROR, after),
        Step::Leave { reply, .. } => after == Step::Respond(reply),
    }
}

/// Whether steps are those of a request, from the first on.
pub open spec fn is_run(config: RuntimeConfig, request: Request, run: Seq<Step>) -> bool {
    &&& run.len() > 0
    &&& crate::proxy::is_first(config, request, run[0])
    &&& forall|i: int, j: int|
        0 <= i && j == i + 1 && j < run.len() ==> #[trigger] may_follow(request, run[i], run[j])
}

/// The body that a step has on its way to the cache.
pub open spec fn transfer_of(step: Step) -> Option<Transfer> {
    match step {
        Step::CreateDirectory { transfer, .. } => Some(transfer),
        Step::Write { transfer } => Some(transfer),
        Step::Install { transfer } => Some(transfer),
        _ => None,
    }
}

/// Whether a step belongs to the fetch of a file by its leader.
pub open spec fn is_fetching(step: Step) -> bool {
    step is Fetch || step is Discard || step is Leave || transfer_of(step) is Some
}

/// The file of the cache that a step is about.
pub open spec fn file_of(step: Step) -> Option<Seq<char>> {
    match step {
        Step::Respond(_) => None,
        Step::Forward => None,
        Step::Look { path } => Some(path@),
        Step::ReadFile { path, .. } => Some(path@),
        Step::Join { path } => Some(path@),
        Step::Wait { path } => Some(path@),
        Step::Fetch { path } => Some(path@),
        Step::CreateDirectory { transfer, .. } => Some(transfer.path@),
        Step::Write { transfer } => Some(transfer.path@),
        Step::Install { transfer } => Some(transfer.path@),
        Step::Discard { path, .. } => Some(path@),
        Step::Leave { path, .. } => Some(path@),
    }
}

/// The temporary file that a step is about.
pub open spec fn temporary_of(step: Step) -> Option<Seq<char>> {
    match step {
        Step::Discard { temporary, .. } => Some(temporary@),
        _ => match transfer_of(step) {
            Some(transfer) => Some(transfer.temporary@),
            None => None,
        },
    }
}

/// Whether a path is that of a temporary file for a file of the cache.
pub open spec fn is_temporary(file: Seq<char>, temporary: Seq<char>) -> bool {
    exists|id: Seq<char>|
        crate::staging::is_identifier(id) && temporary == crate::staging::renamed(
            file,
            #[trigger] crate::staging::temporary_text(id),
        )
}

/// Whether a request is for a file of the cache, and for which.
pub open spec fn asks_for(config: RuntimeConfig, request: Request, file: Seq<char>) -> bool {
    crate::paths::decoded_text(request.path@) matches Some(path) && {
        &&& request.method@ == "GET"@ || request.method@ == "HEAD"@
        &&& crate::config::regex_matches(config.matcher(), path)
        &&& !crate::paths::segments(path).contains(seq!['.', '.'])
        &&& file == crate::paths::joined(config.root(), crate::paths::parts(path))
    }
}

/// What holds of every step of a run.
spec fn is_sound(config: RuntimeConfig, request: Request, step: Step) -> bool {
    &&& file_of(step) matches Some(file) ==> asks_for(config, request, file)
    &&& is_fetching(step) || step is Join || step is Wait ==> request.method@ == "GET"@
    &&& transfer_of(step) matches Some(transfer) ==> 200 <= transfer.status < 300
    &&& temporary_of(step) matches Some(temporary) ==> is_temporary(
        file_of(step)->0,
        temporary,
    )
    &&& step matches Step::ReadFile { head, .. } ==> head.status == OK && request.method@ == "GET"@
    &&& step matches Step::CreateDirectory { directory, transfer } ==> (
    crate::staging::last_component(transfer.path@) matches Some((start, _)) && directory@
        == transfer.path@.take(start))
}

/// What holds of every step holds of the one that follows.
proof fn soundness_lasts(config: RuntimeConfig, request: Request, before: Step, after: Step)
    requires
        is_sound(config, request, before),
        may_follow(request, before, after),
    ensures
        is_sound(config, request, after),
{
}

/// What holds of every step holds throughout a run.
proof fn runs_are_sound(config: RuntimeConfig, request: Request, run: Seq<Step>, i: int)
    requires
        is_run(config, request, run),
        0 <= i < run.len(),
    ensures
        is_sound(config, request, run[i]),
    decreases i,
{
    if i > 0 {
        runs_are_sound(config, request, run, i - 1);
        assert(may_follow(request, run[i - 1], run[i]));
        soundness_lasts(config, request, run[i - 1], run[i]);
    }
}

/// Whether a path is the root, or the root, a slash where it needs one, and a rest of which no
/// segment leads out of the directory it is looked up in.
pub open spec fn is_under(root: Seq<char>, path: Seq<char>) -> bool {
    path == root || exists|rest: Seq<char>|
        path == crate::paths::opened(root) + rest && forall|i: int|
            0 <= i < (#[trigger] crate::paths::segments(rest)).len() ==> crate::paths::plain(
                #[trigger] crate::paths::segments(rest)[i],
            )
}

/// Every file that a run looks at, reads, or stores a body in is the one its request asks for, and
/// lies under the root of the cache.
pub proof fn files_lie_under_the_root(
    config: RuntimeConfig,
    request: Request,
    run: Seq<Step>,
    i: int,
)
    requires
        is_run(config, request, run),
        0 <= i < run.len(),
    ensures
        file_of(run[i]) matches Some(file) ==> asks_for(config, request, file) && is_under(
            config.root(),
            file,
        ),
{
    runs_are_sound(config, request, run, i);
    if let Some(file) = file_of(run[i]) {
        let path = crate::paths::decoded_text(request.path@)->0;
        crate::paths::cache_paths_stay_under_the_root(config.root(), path);
    }
}

/// Every temporary file of a run lies beside the file that the body is stored in, under a name of
/// its own. Unless that file is the root itself, the temporary file lies under the root.
pub proof fn temporary_files_lie_under_the_root(
    config: RuntimeConfig,
    request: Request,
    run: Seq<Step>,
    i: int,
)
    requires
        is_run(config, request, run),
        0 <= i < run.len(),
    ensures
        temporary_of(run[i]) matches Some(temporary) ==> file_of(run[i]) is Some && is_temporary(
            file_of(run[i])->0,
            temporary,
        ) && (file_of(run[i])->0 == config.root() || is_under(config.root(), temporary)),
{
    runs_are_sound(config, request, run, i);
    if let Some(temporary) = temporary_of(run[i]) {
        let root = config.root();
        let path = crate::paths::decoded_text(request.path@)->0;
        let parts = crate::paths::parts(path);
        let id = choose|id: Seq<char>|
            crate::staging::is_identifier(id) && temporary == crate::staging::renamed(
                file_of(run[i])->0,
                #[trigger] crate::staging::temporary_text(id),
            );
        let name = crate::staging::temporary_text(id);
        if parts.len() > 0 {
            crate::staging::temporary_names_are_distinct(id, id);
            crate::staging::temporary_files_lie_beside_the_cache_file(root, path, name);
            crate::paths::parts_are_plain(path);
            let names = parts.drop_last().push(name);
            assert forall|k: int| 0 <= k < names.len() implies crate::paths::plain(
                #[trigger] names[k],
            ) by {
                if k < parts.len() - 1 {
                    assert(crate::paths::plain(parts[k]));
                }
            }
            crate::paths::plain_names_stay_under_the_root(root, names);
        }
    }
}

/// Every directory that a run creates is the one that the file lies in: the root extended by all but
/// the last of the segments that count in the path, which is under the root. Where no segment
/// counts, the file is the root itself, and the directory is the one that the root lies in.
pub proof fn directories_lie_under_the_root(
    config: RuntimeConfig,
    request: Request,
    run: Seq<Step>,
    i: int,
    path: Seq<char>,
)
    requires
        is_run(config, request, run),
        0 <= i < run.len(),
        crate::paths::decoded_text(request.path@) == Some(path),
    ensures
        run[i] matches Step::CreateDirectory { directory, .. } ==> {
            let parts = crate::paths::parts(path);
            if parts.len() > 0 {
                let above = crate::paths::joined(config.root(), parts.drop_last());
                directory@ == crate::paths::opened(above) && is_under(config.root(), above)
            } else {
                crate::staging::last_component(config.root()) matches Some((start, _)) && directory@
                    == config.root().take(start)
            }
        },
{
    runs_are_sound(config, request, run, i);
    if run[i] is CreateDirectory {
        let root = config.root();
        let parts = crate::paths::parts(path);
        if parts.len() > 0 {
            let names = parts.drop_last();
            crate::staging::temporary_files_lie_beside_the_cache_file(root, path, Seq::empty());
            crate::paths::parts_are_plain(path);
            assert forall|k: int| 0 <= k < names.len() implies crate::paths::plain(
                #[trigger] names[k],
            ) by {
                assert(crate::paths::plain(parts[k]));
            }
            if names.len() > 0 {
                crate::paths::plain_names_stay_under_the_root(root, names);
            }
        }
    }
}

/// Only a `GET` request whose decoded path matches the pattern changes anything in the cache, and
/// only after the backend answered it with a status from 200 to 299.
pub proof fn only_matching_successful_gets_are_stored(
    config: RuntimeConfig,
    request: Request,
    run: Seq<Step>,
    i: int,
)
    requires
        is_run(config, request, run),
        0 <= i < run.len(),
    ensures
        transfer_of(run[i]) matches Some(transfer) ==> request.method@ == "GET"@ && (
        crate::paths::decoded_text(request.path@) matches Some(path)
            && crate::config::regex_matches(config.matcher(), path)) && 200 <= transfer.status
            < 300,
        is_fetching(run[i]) || run[i] is Join || run[i] is Wait ==> request.method@ == "GET"@,
{
    runs_are_sound(config, request, run, i);
}

/// A request with another method, or for a path that does not match the pattern, goes to the
/// backend, and what the backend answers is all that follows.
pub proof fn other_requests_are_forwarded(
    config: RuntimeConfig,
    request: Request,
    run: Seq<Step>,
    path: Seq<char>,
)
    requires
        is_run(config, request, run),
        crate::paths::decoded_text(request.path@) == Some(path),
        request.method@ != "GET"@ && request.method@ != "HEAD"@ || !crate::config::regex_matches(
            config.matcher(),
            path,
        ),
    ensures
        run[0] is Forward,
        run.len() <= 2,
        run.len() == 2 ==> run[1] is Respond && exists|answer: Option<BackendAnswer>|
            crate::reply::is_forwarded(answer, Ok(run[1]->Respond_0)),
{
    if run.len() > 1 {
        assert(may_follow(request, run[0], run[1]));
        let answer = choose|answer: Option<BackendAnswer>|
            crate::proxy::is_after_forward(answer, Ok(run[1]));
        assert(crate::reply::is_forwarded(answer, Ok(run[1]->Respond_0)));
    }
    if run.len() > 2 {
        assert(may_follow(request, run[1], run[2]));
    }
}

/// A request with another method, or for a path that does not match the pattern, to which the backend
/// gave an answer with a status of three digits and a body, gets that status and that very body, and
/// the header fields but for those that are held back.
pub proof fn other_requests_get_the_backend_answer(
    config: RuntimeConfig,
    request: Request,
    run: Seq<Step>,
    path: Seq<char>,
    answer: BackendAnswer,
    body: Vec<u8>,
)
    requires
        is_run(config, request, run),
        crate::paths::decoded_text(request.path@) == Some(path),
        request.method@ != "GET"@ && request.method@ != "HEAD"@ || !crate::config::regex_matches(
            config.matcher(),
            path,
        ),
        100 <= answer.status <= 999,
        answer.body == Some(body),
        run.len() > 1,
        crate::proxy::is_after_forward(Some(answer), Ok(run[1])),
    ensures
        run.len() == 2,
        run[1] matches Step::Respond(reply) && reply.status == answer.status && reply.body@ == body@
            && crate::headers::same_fields(
            crate::headers::header_lists(answer.headers),
            crate::headers::header_lists(reply.headers),
        ),
{
    other_requests_are_forwarded(config, request, run, path);
    crate::proxy::forwarded_requests_get_the_backend_answer(Some(answer), Ok(run[1]));
}

/// A path that stands for no text, and a path to a file of the cache that escapes the root, is
/// refused at once: nothing is looked at, sent or stored.
pub proof fn bad_paths_are_refused(config: RuntimeConfig, request: Request, run: Seq<Step>)
    requires
        is_run(config, request, run),
        match crate::paths::decoded_text(request.path@) {
            Some(path) => (request.method@ == "GET"@ || request.method@ == "HEAD"@)
                && crate::config::regex_matches(config.matcher(), path) && crate::paths::segments(
                path,
            ).contains(seq!['.', '.']),
            None => true,
        },
    ensures
        run.len() == 1,
        run[0].responds(BAD_REQUEST),
        crate::proxy::refuses(run[0], 400),
{
    if run.len() > 1 {
        assert(may_follow(request, run[0], run[1]));
    }
}

/// From a step of the fetch of a file on, every step belongs to that fetch, until the answer.
pub(crate) proof fn fetching_lasts(config: RuntimeConfig, request: Request, run: Seq<Step>, i: int, j: int)
    requires
        is_run(config, request, run),
        0 <= i <= j < run.len(),
        is_fetching(run[i]),
    ensures
        run[j] is Respond || is_fetching(run[j]) && file_of(run[j]) == file_of(run[i]),
        run[j] is Respond ==> j > i && run[j - 1] is Leave && file_of(run[j - 1]) == file_of(run[i])
            && run[j - 1]->Leave_reply == run[j]->Respond_0,
    decreases j,
{
    if i < j {
        fetching_lasts(config, request, run, i, j - 1);
        assert(may_follow(request, run[j - 1], run[j]));
    }
}

/// Whoever fetches a file ends the fetch before answering, however it went: the step before the
/// answer wakes those who wait for that file.
pub proof fn leaders_leave_before_they_answer(
    config: RuntimeConfig,
    request: Request,
    run: Seq<Step>,
    i: int,
    j: int,
)
    requires
        is_run(config, request, run),
        0 <= i < j < run.len(),
        run[i] is Fetch,
        run[j] is Respond,
    ensures
        run[j - 1] matches Step::Leave { path, reply } && Some(path@) == file_of(run[i]) && run[j]
            == Step::Respond(reply),
{
    fetching_lasts(config, request, run, i, j);
}

/// A body that was to be put in its place and was not leaves no temporary file behind without an
/// attempt to remove it, and is answered as an internal error. One that was is answered as the
/// backend answered.
pub proof fn failed_installs_are_cleaned_up(
    config: RuntimeConfig,
    request: Request,
    run: Seq<Step>,
    i: int,
    transfer: Transfer,
)
    requires
        is_run(config, request, run),
        0 <= i < run.len() - 1,
        run[i] == (Step::Install { transfer }),
    ensures
        match run[i + 1] {
            Step::Discard { path, temporary } => {
                &&& temporary == transfer.temporary
                &&& run.len() > i + 2 ==> crate::fetch::leaves(
                    transfer.path,
                    INTERNAL_SERVER_ERROR,
                    run[i + 2],
                )
            },
            Step::Leave { path, reply } => path == transfer.path && crate::reply::passes_on(
                Ok(reply),
                transfer.status,
                transfer.headers,
                transfer.body@,
            ),
            _ => false,
        },
{
    assert(may_follow(request, run[i], run[i + 1]));
    if run.len() > i + 2 {
        assert(may_follow(request, run[i + 1], run[i + 2]));
    }
}

/// What is written is what is answered: once a body is written, the answer is the status, the
/// passing header fields and the very body that were stored, or an internal error.
pub proof fn stored_bodies_are_answered(
    config: RuntimeConfig,
    request: Request,
    run: Seq<Step>,
    i: int,
    j: int,
    transfer: Transfer,
    reply: Reply,
)
    requires
        is_run(config, request, run),
        0 <= i < j < run.len(),
        run[i] == (Step::Write { transfer }),
        run[j] == Step::Respond(reply),
    ensures
        reply.is_bare(INTERNAL_SERVER_ERROR) || {
            &&& run[i + 1] == (Step::Install { transfer })
            &&& crate::reply::passes_on(
                Ok(reply),
                transfer.status,
                transfer.headers,
                transfer.body@,
            )
        },
{
    assert(may_follow(request, run[i], run[i + 1]));
    if run[i + 1] is Install {
        assert(run[i + 1] == (Step::Install { transfer }));
        assert(may_follow(request, run[i + 1], run[i + 2]));
        if run[i + 2] is Discard {
            assert(may_follow(request, run[i + 2], run[i + 3]));
            assert(may_follow(request, run[i + 3], run[i + 4]));
            if j > i + 4 {
                assert(may_follow(request, run[i + 4], run[i + 5]));
            }
        } else {
            assert(may_follow(request, run[i + 2], run[i + 3]));
            if j > i + 3 {
                assert(may_follow(request, run[i + 3], run[i + 4]));
            }
        }
    } else {
        assert(may_follow(request, run[i + 1], run[i + 2]));
        if j > i + 2 {
            assert(may_follow(request, run[i + 2], run[i + 3]));
        }
    }
}

/// A body is put in its place only after the whole of it was written to the temporary file.
pub proof fn bodies_are_written_before_they_are_installed(
    config: RuntimeConfig,
    request: Request,
    run: Seq<Step>,
    i: int,
    transfer: Transfer,
)
    requires
        is_run(config, request, run),
        0 <= i < run.len(),
        run[i] == (Step::Install { transfer }),
    ensures
        i > 0,
        run[i - 1] == (Step::Write { transfer }),
        crate::fetch::is_after_write(transfer, true, run[i]),
{
    if i > 0 {
        assert(may_follow(request, run[i - 1], run[i]));
    }
}

/// The number of steps that may still follow on a step.
pub open spec fn steps_left(step: Step) -> nat {
    match step {
        Step::Respond(_) => 0,
        Step::Forward => 1,
        Step::Look { .. } => 8,
        Step::ReadFile { .. } => 1,
        Step::Join { .. } => 7,
        Step::Wait { .. } => 2,
        Step::Fetch { .. } => 6,
        Step::CreateDirectory { .. } => 5,
        Step::Write { .. } => 4,
        Step::Install { .. } => 3,
        Step::Discard { .. } => 2,
        Step::Leave { .. } => 1,
    }
}

/// Every request is answered after a bounded number of steps: each step brings the answer nearer.
pub proof fn runs_end(config: RuntimeConfig, request: Request, run: Seq<Step>, i: int)
    requires
        is_run(config, request, run),
        0 <= i < run.len(),
    ensures
        i + steps_left(run[i]) <= 8,
        i + 1 < run.len() ==> steps_left(run[i + 1]) < steps_left(run[i]),
        steps_left(run[i]) == 0 <==> run[i] is Respond,
        run[i] is Respond ==> run.len() == i + 1,
    decreases i,
{
    if i > 0 {
        runs_end(config, request, run, i - 1);
        assert(may_follow(request, run[i - 1], run[i]));
    }
    if i + 1 < run.len() {
        assert(may_follow(request, run[i], run[i + 1]));
    }
}

/// Each step is nearer to the answer than any before it.
proof fn steps_left_decrease(
    config: RuntimeConfig,
    request: Request,
    run: Seq<Step>,
    i: int,
    j: int,
)
    requires
        is_run(config, request, run),
        0 <= i < j < run.len(),
    ensures
        steps_left(run[j]) < steps_left(run[i]),
    decreases j,
{
    runs_end(config, request, run, j - 1);
    if i < j - 1 {
        steps_left_decrease(config, request, run, i, j - 1);
    }
}

/// A request is sent to the backend at most once, be it as it came or to store the body.
pub proof fn requests_reach_the_backend_at_most_once(
    config: RuntimeConfig,
    request: Request,
    run: Seq<Step>,
    i: int,
    j: int,
)
    requires
        is_run(config, request, run),
        0 <= i < j < run.len(),
        run[i] is Forward || run[i] is Fetch,
    ensures
        !(run[j] is Forward),
        !(run[j] is Fetch),
{
    steps_left_decrease(config, request, run, i, j);
    if run[i] is Fetch {
        fetching_lasts(config, request, run, i, j);
    }
}

} // verus!
