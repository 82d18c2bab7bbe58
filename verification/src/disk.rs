//! What the steps of a request do to the files, and what they see of them.
//!
//! Performing a step is described here as it is outside of the library: writing changes the file
//! that is written and may stop half-way, renaming takes effect at once or not at all, and reading
//! gives what is there or fails.

use vstd::prelude::*;
use vstd::utf8::*;
use crate::cached::{Metadata, Modified};
use crate::config::RuntimeConfig;
use crate::proxy::{Found, Request, Step, Transfer};
use crate::reply::{Reply, INTERNAL_SERVER_ERROR, OK};

verus! {

/// A regular file: its contents, and when it was last modified, counted from the Unix epoch.
pub struct Stored {
    pub contents: Seq<u8>,
    pub seconds: u64,
    pub nanoseconds: u32,
}

/// The regular files that there are.
pub type Files = Map<Seq<char>, Stored>;

/// Whether the file at a path, if there is one, is the same before and after.
pub open spec fn unchanged(before: Files, after: Files, path: Seq<char>) -> bool {
    &&& before.contains_key(path) == after.contains_key(path)
    &&& before.contains_key(path) ==> before[path] == after[path]
}

/// Whether metadata are those of a file.
pub open spec fn describes(metadata: Metadata, file: Stored) -> bool {
    &&& metadata.len == file.contents.len()
    &&& metadata.modified == (Modified::After {
        seconds: file.seconds,
        nanoseconds: file.nanoseconds,
    })
}

/// Whether a look at a path may find something. The time of a file may remain unknown.
pub open spec fn may_find(files: Files, path: Seq<char>, found: Found) -> bool {
    match found {
        Found::File(metadata) => files.contains_key(path) && metadata.len
            == files[path].contents.len() && (metadata.modified is After ==> describes(
            metadata,
            files[path],
        )),
        Found::Failed => true,
        _ => !files.contains_key(path),
    }
}

/// Whether performing a step, with another to follow, may turn files into others.
pub open spec fn may_act(
    request: Request,
    step: Step,
    next: Step,
    before: Files,
    after: Files,
) -> bool {
    match step {
        Step::Look { path } => after == before && exists|found: Found|
            may_find(before, path@, found) && crate::proxy::is_after_look(
                request,
                path,
                found,
                next,
            ),
        Step::Wait { path } => after == before && exists|found: Found|
            may_find(before, path@, found) && crate::proxy::is_after_wait(
                request,
                path,
                found,
                next,
            ),
        Step::ReadFile { path, head } => after == before && exists|contents: Option<Vec<u8>>|
            (contents matches Some(bytes) ==> before.contains_key(path@) && bytes@
                == before[path@].contents) && #[trigger] crate::proxy::is_after_read(
                head,
                contents,
                next,
            ),
        Step::Write { transfer } => {
            let temporary = transfer.temporary@;
            &&& forall|path: Seq<char>|
                path != temporary ==> #[trigger] unchanged(before, after, path)
            &&& next is Install ==> after.contains_key(temporary) && after[temporary].contents
                == transfer.body@
        },
        Step::Install { transfer } => if next is Leave {
            &&& before.contains_key(transfer.temporary@)
            &&& after == before.remove(transfer.temporary@).insert(
                transfer.path@,
                before[transfer.temporary@],
            )
        } else {
            after == before
        },
        Step::Discard { temporary, .. } => after == before || after == before.remove(temporary@),
        _ => after == before,
    }
}

/// Whether steps are those of a request, with the files before and after each step but the last.
///
/// Between two steps others may change the files, but not the temporary file that the next step is
/// about.
pub open spec fn is_story(
    config: RuntimeConfig,
    request: Request,
    run: Seq<Step>,
    before: Seq<Files>,
    after: Seq<Files>,
) -> bool {
    &&& crate::runs::is_run(config, request, run)
    &&& before.len() == run.len() - 1
    &&& after.len() == run.len() - 1
    &&& forall|i: int, j: int|
        0 <= i && j == i + 1 && j < run.len() ==> #[trigger] may_act(
            request,
            run[i],
            run[j],
            before[i],
            after[i],
        )
    &&& forall|i: int, j: int, temporary: Seq<char>|
        0 <= i && j == i + 1 && j < before.len() && crate::runs::temporary_of(run[j]) == Some(
            temporary,
        ) ==> #[trigger] unchanged(after[i], before[j], temporary)
}

/// Whether a step puts the whole of a body at a path.
pub open spec fn installs(step: Step, after: Files, path: Seq<char>) -> bool {
    &&& step matches Step::Install { transfer }
    &&& path == transfer.path@
    &&& after.contains_key(path)
    &&& after[path].contents == transfer.body@
}

/// Before a body is put in its place, the temporary file holds the whole of it.
proof fn temporary_files_hold_the_body(
    config: RuntimeConfig,
    request: Request,
    run: Seq<Step>,
    before: Seq<Files>,
    after: Seq<Files>,
    i: int,
    transfer: Transfer,
)
    requires
        is_story(config, request, run, before, after),
        0 <= i < before.len(),
        run[i] == (Step::Install { transfer }),
    ensures
        before[i].contains_key(transfer.temporary@),
        before[i][transfer.temporary@].contents == transfer.body@,
{
    crate::runs::bodies_are_written_before_they_are_installed(config, request, run, i, transfer);
    assert(may_act(request, run[i - 1], run[i], before[i - 1], after[i - 1]));
    assert(unchanged(after[i - 1], before[i], transfer.temporary@));
}

/// No reader sees half of a body: a step leaves every file as it was, but for its temporary file,
/// and but for putting a whole body in the place of the file that the request asks for. So that
/// file itself, unless it has the name of a temporary file, is at every moment as it was or holds a
/// whole body.
pub proof fn only_whole_bodies_reach_the_cache(
    config: RuntimeConfig,
    request: Request,
    run: Seq<Step>,
    before: Seq<Files>,
    after: Seq<Files>,
    i: int,
    path: Seq<char>,
)
    requires
        is_story(config, request, run, before, after),
        0 <= i < before.len(),
    ensures
        unchanged(before[i], after[i], path) || installs(run[i], after[i], path) || (
        crate::runs::temporary_of(run[i]) == Some(path) && crate::runs::file_of(run[i]) is Some
            && crate::runs::is_temporary(crate::runs::file_of(run[i])->0, path)),
        crate::runs::asks_for(config, request, path) && !crate::runs::is_temporary(path, path)
            ==> unchanged(before[i], after[i], path) || installs(run[i], after[i], path),
{
    assert(may_act(request, run[i], run[i + 1], before[i], after[i]));
    crate::runs::temporary_files_lie_under_the_root(config, request, run, i);
    crate::runs::files_lie_under_the_root(config, request, run, i);
    if let Step::Install { transfer } = run[i] {
        temporary_files_hold_the_body(config, request, run, before, after, i, transfer);
    }
}

/// Whether reading works in a step: a file that is there is found, with its time, and can be read.
pub open spec fn reads_well(request: Request, step: Step, next: Step, files: Files) -> bool {
    match step {
        Step::Look { path } => files.contains_key(path@) ==> exists|metadata: Metadata|
            #[trigger] describes(metadata, files[path@]) && crate::proxy::is_after_look(
                request,
                path,
                Found::File(metadata),
                next,
            ),
        Step::Wait { path } => files.contains_key(path@) ==> exists|metadata: Metadata|
            #[trigger] describes(metadata, files[path@]) && crate::proxy::is_after_wait(
                request,
                path,
                Found::File(metadata),
                next,
            ),
        Step::ReadFile { path, head } => files.contains_key(path@) ==> exists|contents: Vec<u8>|
            contents@ == files[path@].contents && #[trigger] crate::proxy::is_after_read(
                head,
                Some(contents),
                next,
            ),
        _ => true,
    }
}

/// Whether the header fields of an answer say how long a body is.
pub open spec fn states_length(reply: Reply, len: nat) -> bool {
    let lists = crate::headers::header_lists(reply.headers);
    lists.contains_key("content-length"@) && lists["content-length"@] == seq![
        encode_utf8(crate::text::decimal_text(len)),
    ]
}

/// A `GET` request for a file that is there, and that stays as it is while the request is served, is
/// answered from that file. Nothing is sent to the backend: the file is looked at and read, and the
/// answer has its contents and its length. Only a request that carries the tag of the file gets
/// another answer.
pub proof fn files_are_served(
    config: RuntimeConfig,
    request: Request,
    run: Seq<Step>,
    before: Seq<Files>,
    after: Seq<Files>,
    path: Seq<char>,
    file: Stored,
)
    requires
        is_story(config, request, run, before, after),
        run.last() is Respond,
        crate::runs::asks_for(config, request, path),
        request.method@ == "GET"@,
        !crate::cached::is_revalidation(
            crate::headers::header_lists(request.headers),
            crate::cached::etag_text(
                file.contents.len(),
                crate::cached::milliseconds(file.seconds, file.nanoseconds),
            ),
        ),
        forall|i: int|
            0 <= i < before.len() ==> (#[trigger] before[i]).contains_key(path) && before[i][path]
                == file,
        forall|i: int, j: int|
            0 <= i && j == i + 1 && j < run.len() ==> #[trigger] reads_well(
                request,
                run[i],
                run[j],
                before[i],
            ),
    ensures
        run.len() == 3,
        run[0] matches Step::Look { path: looked } && looked@ == path,
        run[1] matches Step::ReadFile { path: read, .. } && read@ == path,
        forall|i: int| 0 <= i < run.len() ==> !(#[trigger] run[i] is Forward) && !(run[i] is Fetch),
        run[2] matches Step::Respond(reply) && reply.status == OK && reply.body@ == file.contents
            && states_length(reply, file.contents.len()),
{
    reveal_strlit("GET");
    reveal_strlit("HEAD");
    assert("GET"@[0] != "HEAD"@[0]);
    assert(run[0] is Look);
    assert(reads_well(request, run[0], run[1], before[0]));
    assert(run[1] is ReadFile);
    assert(reads_well(request, run[1], run[2], before[1]));
    crate::runs::runs_end(config, request, run, 2);
}

/// A request that has waited for another to fetch a file, finds the file then, and has it stay as it
/// is while it is served, is answered from that file: the file is read, and the answer has its
/// contents and its length. Only a request that carries the tag of the file gets another answer.
pub proof fn followers_are_served(
    config: RuntimeConfig,
    request: Request,
    run: Seq<Step>,
    before: Seq<Files>,
    after: Seq<Files>,
    i: int,
    path: String,
    file: Stored,
)
    requires
        is_story(config, request, run, before, after),
        run.last() is Respond,
        0 <= i < run.len(),
        run[i] == (Step::Wait { path }),
        !crate::cached::is_revalidation(
            crate::headers::header_lists(request.headers),
            crate::cached::etag_text(
                file.contents.len(),
                crate::cached::milliseconds(file.seconds, file.nanoseconds),
            ),
        ),
        forall|k: int|
            i <= k < before.len() ==> (#[trigger] before[k]).contains_key(path@)
                && before[k][path@] == file,
        forall|k: int, l: int|
            i <= k && l == k + 1 && l < run.len() ==> #[trigger] reads_well(
                request,
                run[k],
                run[l],
                before[k],
            ),
    ensures
        run.len() == i + 3,
        run[i + 1] matches Step::ReadFile { path: read, .. } && read == path,
        forall|k: int| 0 <= k < run.len() ==> !(#[trigger] run[k] is Forward) && !(run[k] is Fetch),
        run[i + 2] matches Step::Respond(reply) && reply.status == OK && reply.body@
            == file.contents && states_length(reply, file.contents.len()),
{
    crate::runs::only_matching_successful_gets_are_stored(config, request, run, i);
    reveal_strlit("GET");
    reveal_strlit("HEAD");
    assert("GET"@[0] != "HEAD"@[0]);
    assert(i + 1 < run.len());
    assert(reads_well(request, run[i], run[i + 1], before[i]));
    assert(run[i + 1] is ReadFile);
    assert(reads_well(request, run[i + 1], run[i + 2], before[i + 1]));
    crate::runs::runs_end(config, request, run, i + 2);
    assert forall|k: int| 0 <= k < run.len() implies !(#[trigger] run[k] is Forward) && !(
    run[k] is Fetch) by {
        if k < i {
            if run[k] is Forward {
                crate::runs::runs_end(config, request, run, k);
                crate::runs::runs_end(config, request, run, k + 1);
            }
            if run[k] is Fetch {
                crate::runs::fetching_lasts(config, request, run, k, i);
            }
        }
    }
}

/// Once a request has got the body of a file that was stored for it, the file holds that body.
pub proof fn answered_bodies_are_stored(
    config: RuntimeConfig,
    request: Request,
    run: Seq<Step>,
    before: Seq<Files>,
    after: Seq<Files>,
    i: int,
    transfer: Transfer,
    reply: Reply,
)
    requires
        is_story(config, request, run, before, after),
        0 <= i < run.len() - 1,
        run[i] == (Step::Write { transfer }),
        run.last() == Step::Respond(reply),
        !reply.is_bare(INTERNAL_SERVER_ERROR),
    ensures
        crate::runs::asks_for(config, request, transfer.path@),
        200 <= reply.status < 300,
        reply.body@ == transfer.body@,
        i + 1 < after.len(),
        after[i + 1].contains_key(transfer.path@),
        after[i + 1][transfer.path@].contents == reply.body@,
{
    let j = run.len() - 1;
    crate::runs::stored_bodies_are_answered(config, request, run, i, j, transfer, reply);
    crate::runs::files_lie_under_the_root(config, request, run, i);
    crate::runs::only_matching_successful_gets_are_stored(config, request, run, i);
    temporary_files_hold_the_body(config, request, run, before, after, i + 1, transfer);
    assert(may_act(request, run[i + 1], run[i + 2], before[i + 1], after[i + 1]));
    crate::runs::failed_installs_are_cleaned_up(config, request, run, i + 1, transfer);
    if run[i + 2] is Discard {
        assert(crate::runs::may_follow(request, run[i + 2], run[i + 3]));
        assert(crate::runs::may_follow(request, run[i + 3], run[i + 4]));
        crate::runs::runs_end(config, request, run, i + 4);
    }
}

/// What was stored is served: once a request has got the body of a file that was stored for it, a
/// later `GET` request for that file, while the file stays as it is, gets the same body with its
/// length, and nothing is sent to the backend for it. Only a request that carries the tag of the
/// file gets another answer.
pub proof fn stored_bodies_are_served(
    config: RuntimeConfig,
    first: Request,
    first_run: Seq<Step>,
    first_before: Seq<Files>,
    first_after: Seq<Files>,
    i: int,
    transfer: Transfer,
    answered: Reply,
    later: Request,
    run: Seq<Step>,
    before: Seq<Files>,
    after: Seq<Files>,
)
    requires
        is_story(config, first, first_run, first_before, first_after),
        0 <= i < first_run.len() - 1,
        first_run[i] == (Step::Write { transfer }),
        first_run.last() == Step::Respond(answered),
        !answered.is_bare(INTERNAL_SERVER_ERROR),
        is_story(config, later, run, before, after),
        run.last() is Respond,
        later.path@ == first.path@ || crate::runs::asks_for(config, later, transfer.path@),
        later.method@ == "GET"@,
        ({
            let file = first_after[i + 1][transfer.path@];
            !crate::cached::is_revalidation(
                crate::headers::header_lists(later.headers),
                crate::cached::etag_text(
                    file.contents.len(),
                    crate::cached::milliseconds(file.seconds, file.nanoseconds),
                ),
            )
        }),
        forall|k: int|
            0 <= k < before.len() ==> unchanged(
                first_after[i + 1],
                #[trigger] before[k],
                transfer.path@,
            ),
        forall|k: int, l: int|
            0 <= k && l == k + 1 && l < run.len() ==> #[trigger] reads_well(
                later,
                run[k],
                run[l],
                before[k],
            ),
    ensures
        forall|k: int| 0 <= k < run.len() ==> !(#[trigger] run[k] is Forward) && !(run[k] is Fetch),
        run.last() matches Step::Respond(served) && served.status == OK && served.body@
            == answered.body@ && states_length(served, answered.body@.len()),
{
    answered_bodies_are_stored(
        config,
        first,
        first_run,
        first_before,
        first_after,
        i,
        transfer,
        answered,
    );
    let path = transfer.path@;
    let file = first_after[i + 1][path];
    crate::runs::only_matching_successful_gets_are_stored(config, first, first_run, i);
    assert forall|k: int| 0 <= k < before.len() implies (#[trigger] before[k]).contains_key(path)
        && before[k][path] == file by {
        assert(unchanged(first_after[i + 1], before[k], path));
    }
    files_are_served(config, later, run, before, after, path, file);
}

} // verus!
