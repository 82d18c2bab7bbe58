//! Answers to the client, and how a backend's answer becomes one.

use vstd::prelude::*;
use http::HeaderMap;
use crate::headers::{no_headers, relay_headers, TooManyHeaders, ROOM};

verus! {

pub const OK: u16 = 200;

pub const NOT_MODIFIED: u16 = 304;

pub const BAD_REQUEST: u16 = 400;

pub const INTERNAL_SERVER_ERROR: u16 = 500;

pub const BAD_GATEWAY: u16 = 502;

/// An answer: its status code, its header fields and its body.
#[derive(Debug)]
pub struct Reply {
    pub status: u16,
    pub headers: HeaderMap,
    pub body: Vec<u8>,
}

impl Reply {
    /// Whether this is the answer with a status alone, without header fields and body.
    pub open spec fn is_bare(self, status: u16) -> bool {
        &&& self.status == status
        &&& crate::headers::header_lists(self.headers) == crate::headers::HeaderLists::empty()
        &&& self.body@ == Seq::<u8>::empty()
    }

    /// The answer with a status alone, without header fields and body.
    pub fn bare(status: u16) -> (reply: Reply)
        ensures
            reply.is_bare(status),
            reply.status == status,
            reply.body@.len() == 0,
            forall|name: Seq<char>| !(#[trigger] crate::headers::header_lists(
                reply.headers,
            ).contains_key(name)),
    {
        Reply { status, headers: no_headers(), body: Vec::new() }
    }
}

/// What the backend sent: a status code, header fields, and the body, if it could be read.
#[derive(Debug)]
pub struct BackendAnswer {
    pub status: u16,
    pub headers: HeaderMap,
    pub body: Option<Vec<u8>>,
}

/// Whether an answer passes on a status, a body, and what passes of the header fields. Only with
/// too many names of header fields there may be no answer.
pub open spec fn passes_on(
    result: Result<Reply, TooManyHeaders>,
    status: u16,
    headers: HeaderMap,
    body: Seq<u8>,
) -> bool {
    match result {
        Ok(reply) => {
            &&& reply.status == status
            &&& reply.body@ == body
            &&& crate::headers::header_lists(reply.headers) == crate::headers::passed(
                crate::headers::header_lists(headers),
            )
        },
        Err(_) => crate::headers::passed(crate::headers::header_lists(headers)).len() > ROOM,
    }
}

/// Whether an answer has a status and a very body, and the header fields but for those that are held
/// back.
pub open spec fn carries(reply: Reply, status: u16, headers: HeaderMap, body: Seq<u8>) -> bool {
    &&& reply.status == status
    &&& reply.body@ == body
    &&& crate::headers::same_fields(
        crate::headers::header_lists(headers),
        crate::headers::header_lists(reply.headers),
    )
}

/// Whether an answer has a status and nothing else.
pub open spec fn is_plain_failure(reply: Reply, status: u16) -> bool {
    &&& reply.status == status
    &&& reply.body@.len() == 0
    &&& crate::headers::header_lists(reply.headers).dom() == Set::<Seq<char>>::empty()
}

/// The answer with a status, a body, and those of the header fields that pass.
pub fn response_with_headers(status: u16, body: Vec<u8>, headers: &HeaderMap) -> (result: Result<
    Reply,
    TooManyHeaders,
>)
    ensures
        passes_on(result, status, *headers, body@),
        result matches Ok(reply) ==> carries(reply, status, *headers, body@),
{
    proof {
        crate::headers::passed_fields_are_the_same(crate::headers::header_lists(*headers));
    }
    match relay_headers(headers) {
        Ok(headers) => Ok(Reply { status, headers, body }),
        Err(error) => Err(error),
    }
}

#[verifier::external_type_specification]
#[verifier::external_body]
pub struct ExInvalidStatusCode(http::status::InvalidStatusCode);

/// Whether a number is a status code.
pub open spec fn is_status(code: u16) -> bool {
    100 <= code <= 999
}

/// `http::StatusCode::from_u16`: succeeds exactly on the numbers of three digits, and keeps them.
#[verifier::external_body]
fn check_status(code: u16) -> (result: Result<u16, http::status::InvalidStatusCode>)
    ensures
        result is Ok <==> is_status(code),
        result matches Ok(status) ==> status == code,
{
    http::StatusCode::from_u16(code).map(|status| status.as_u16())
}

/// Whether the outcome is the backend's answer passed on. Where its status code is none, or its
/// body could not be read, the answer is that the gateway failed.
pub open spec fn is_backend_response(
    answer: BackendAnswer,
    result: Result<Reply, TooManyHeaders>,
) -> bool {
    match answer.body {
        Some(body) if is_status(answer.status) => passes_on(
            result,
            answer.status,
            answer.headers,
            body@,
        ),
        _ => result matches Ok(reply) && reply.is_bare(BAD_GATEWAY),
    }
}

/// Passes a backend's answer on.
pub fn backend_response(answer: BackendAnswer) -> (result: Result<Reply, TooManyHeaders>)
    ensures
        is_backend_response(answer, result),
        100 <= answer.status <= 999 ==> (answer.body matches Some(body) ==> (result matches Ok(reply)
            ==> carries(reply, answer.status, answer.headers, body@))),
        !(100 <= answer.status <= 999) || answer.body is None ==> (result matches Ok(reply)
            && is_plain_failure(reply, 502)),
{
    match check_status(answer.status) {
        Ok(status) => match answer.body {
            Some(body) => response_with_headers(status, body, &answer.headers),
            None => Ok(Reply::bare(BAD_GATEWAY)),
        },
        Err(_) => Ok(Reply::bare(BAD_GATEWAY)),
    }
}

/// Whether the outcome is that of a request sent to the backend as it came: the backend's own
/// answer, or that the gateway failed where the backend gave none.
pub open spec fn is_forwarded(
    answer: Option<BackendAnswer>,
    result: Result<Reply, TooManyHeaders>,
) -> bool {
    match answer {
        Some(answer) => is_backend_response(answer, result),
        None => result matches Ok(reply) && reply.is_bare(BAD_GATEWAY),
    }
}

/// The answer to a request that was sent to the backend as it came.
pub fn forward(answer: Option<BackendAnswer>) -> (result: Result<Reply, TooManyHeaders>)
    ensures
        is_forwarded(answer, result),
        answer matches Some(answer) ==> (100 <= answer.status <= 999 ==> (answer.body matches Some(
            body,
        ) ==> (result matches Ok(reply) ==> carries(
            reply,
            answer.status,
            answer.headers,
            body@,
        )))),
        answer is None ==> (result matches Ok(reply) && is_plain_failure(reply, 502)),
{
    match answer {
        Some(answer) => backend_response(answer),
        None => Ok(Reply::bare(BAD_GATEWAY)),
    }
}

/// What the backend answered is what the client gets: where the status is a number of three digits
/// and the body was read, the reply has that status, that very body and those header fields, but for
/// the ones that are held back. Only with more than 6553 names to pass on there may be no reply.
pub proof fn backend_answers_reach_the_client(
    answer: BackendAnswer,
    body: Vec<u8>,
    result: Result<Reply, TooManyHeaders>,
)
    requires
        is_forwarded(Some(answer), result) || is_backend_response(answer, result),
        100 <= answer.status <= 999,
        answer.body == Some(body),
    ensures
        match result {
            Ok(reply) => {
                &&& reply.status == answer.status
                &&& reply.body@ == body@
                &&& crate::headers::same_fields(
                    crate::headers::header_lists(answer.headers),
                    crate::headers::header_lists(reply.headers),
                )
            },
            Err(_) => crate::headers::passed(crate::headers::header_lists(answer.headers)).len()
                > 6553,
        },
{
    crate::headers::passed_fields_are_the_same(crate::headers::header_lists(answer.headers));
}

/// A backend that gives no answer, half of one, or one whose status is no number of three digits,
/// makes for a reply with status 502, without header fields and body.
pub proof fn backend_failures_are_bad_gateways(
    answer: Option<BackendAnswer>,
    result: Result<Reply, TooManyHeaders>,
)
    requires
        is_forwarded(answer, result),
        answer matches Some(answer) ==> answer.body is None || answer.status < 100 || answer.status
            > 999,
    ensures
        result matches Ok(reply) && reply.status == 502 && reply.body@.len() == 0
            && crate::headers::header_lists(reply.headers).dom() == Set::<Seq<char>>::empty(),
{
}

/// What is built from a status, header fields and a body has that status, that very body and those
/// header fields, but for the ones that are held back.
pub proof fn answers_carry_what_they_were_built_from(
    reply: Reply,
    status: u16,
    headers: HeaderMap,
    body: Seq<u8>,
)
    requires
        passes_on(Ok(reply), status, headers, body),
    ensures
        reply.status == status,
        reply.body@ == body,
        crate::headers::same_fields(
            crate::headers::header_lists(headers),
            crate::headers::header_lists(reply.headers),
        ),
{
    crate::headers::passed_fields_are_the_same(crate::headers::header_lists(headers));
}

/// An answer with a status alone has no header fields and no body.
pub proof fn bare_answers_are_empty(reply: Reply, status: u16)
    requires
        reply.is_bare(status),
    ensures
        reply.status == status,
        reply.body@.len() == 0,
        crate::headers::header_lists(reply.headers).dom() == Set::<Seq<char>>::empty(),
{
}

} // verus!
