//! Answers from a file of the cache.

use vstd::prelude::*;
use vstd::string::*;
use vstd::utf8::*;
use http::HeaderMap;
use crate::headers::{first_value, insert, no_headers, parse_header_value};
use crate::reply::{Reply, INTERNAL_SERVER_ERROR, NOT_MODIFIED, OK};
use crate::text::{decimal, same_bytes, same_text};

verus! {

/// The first second of the year 10000, which a date in a header field cannot express.
pub const END_OF_DATES: u64 = 253402300800;

/// When a file was last modified, counted from the Unix epoch.
#[derive(Debug, Clone, Copy, PartialEq, Eq, Structural)]
pub enum Modified {
    /// The time cannot be told.
    Unknown,
    /// The time predates the epoch.
    BeforeEpoch,
    /// The time in whole seconds and the nanoseconds beyond them.
    After { seconds: u64, nanoseconds: u32 },
}

/// What is known of a file of the cache without reading it.
#[derive(Debug, Clone, Copy, PartialEq, Eq, Structural)]
pub struct Metadata {
    pub len: u64,
    pub modified: Modified,
}

/// What remains to be done for an answer from the cache.
#[derive(Debug)]
pub enum CachedStep {
    /// The answer is complete.
    Respond(Reply),
    /// The answer lacks the contents of the file.
    ReadBody(Reply),
}

/// The milliseconds in a time after the epoch.
pub open spec fn milliseconds(seconds: u64, nanoseconds: u32) -> nat {
    (seconds * 1000 + nanoseconds / 1000000) as nat
}

/// The tag of a file with a length that was modified at a millisecond.
pub open spec fn etag_text(len: nat, millis: nat) -> Seq<char> {
    seq!['"'] + crate::text::decimal_text(len) + seq!['-'] + crate::text::decimal_text(millis)
        + seq!['"']
}

/// Writes the tag of a file.
pub fn etag(len: u64, millis: u128) -> (tag: String)
    ensures
        tag@ == etag_text(len as nat, millis as nat),
        tag@ == seq!['"'] + crate::text::decimal_text(len as nat) + seq!['-']
            + crate::text::decimal_text(millis as nat) + seq!['"'],
{
    let mut tag = String::new();
    tag.push('"');
    tag.append(&decimal(len as u128));
    tag.push('-');
    tag.append(&decimal(millis));
    tag.push('"');
    assert(tag@ =~= etag_text(len as nat, millis as nat));
    tag
}

/// The header fields of an answer from the cache.
pub open spec fn cached_lists(
    date: Seq<char>,
    content_type: Seq<char>,
    etag: Seq<char>,
    len: nat,
) -> crate::headers::HeaderLists {
    crate::headers::HeaderLists::empty()
        .insert("last-modified"@, seq![encode_utf8(date)])
        .insert("content-type"@, seq![encode_utf8(content_type)])
        .insert("etag"@, seq![encode_utf8(etag)])
        .insert("content-length"@, seq![encode_utf8(crate::text::decimal_text(len))])
}

/// The names that an answer from the cache sets, and the one it reads, are names of fields, in
/// lower case.
proof fn cached_names()
    ensures
        crate::headers::is_header_name("last-modified"@),
        crate::headers::is_header_name("content-type"@),
        crate::headers::is_header_name("etag"@),
        crate::headers::is_header_name("content-length"@),
        crate::headers::is_header_name("if-none-match"@),
        crate::headers::lowercase("last-modified"@) == "last-modified"@,
        crate::headers::lowercase("content-type"@) == "content-type"@,
        crate::headers::lowercase("etag"@) == "etag"@,
        crate::headers::lowercase("content-length"@) == "content-length"@,
        crate::headers::lowercase("if-none-match"@) == "if-none-match"@,
{
    reveal_strlit("last-modified");
    reveal_strlit("content-type");
    reveal_strlit("etag");
    reveal_strlit("content-length");
    reveal_strlit("if-none-match");
    assert(crate::headers::lowercase("last-modified"@) =~= "last-modified"@);
    assert(crate::headers::lowercase("content-type"@) =~= "content-type"@);
    assert(crate::headers::lowercase("etag"@) =~= "etag"@);
    assert(crate::headers::lowercase("content-length"@) =~= "content-length"@);
    assert(crate::headers::lowercase("if-none-match"@) =~= "if-none-match"@);
}

/// Whether a text can be the value of a field.
pub open spec fn is_value_text(text: Seq<char>) -> bool {
    crate::headers::is_header_value(encode_utf8(text))
}

/// Text of visible ASCII characters can be the value of a field.
proof fn visible_text_is_value(text: Seq<char>)
    requires
        forall|i: int| 0 <= i < text.len() ==> '!' <= #[trigger] text[i] <= '~',
    ensures
        is_value_text(text),
{
    is_ascii_chars_encode_utf8(text);
    assert forall|i: int| 0 <= i < encode_utf8(text).len() implies crate::headers::is_value_byte(
        #[trigger] encode_utf8(text)[i],
    ) by {
        assert('!' <= text[i] <= '~');
        assert(text[i] as u8 == encode_utf8(text)[i]);
    }
}

/// Numbers and tags can be the value of a field.
proof fn tags_are_values(len: nat, millis: nat)
    ensures
        is_value_text(crate::text::decimal_text(len)),
        is_value_text(etag_text(len, millis)),
{
    crate::text::decimal_text_is_faithful(len);
    crate::text::decimal_text_is_faithful(millis);
    visible_text_is_value(crate::text::decimal_text(len));
    let tag = etag_text(len, millis);
    let a = crate::text::decimal_text(len);
    let b = crate::text::decimal_text(millis);
    assert forall|i: int| 0 <= i < tag.len() implies '!' <= #[trigger] tag[i] <= '~' by {
        if 1 <= i < 1 + a.len() {
            assert(tag[i] == a[i - 1]);
        } else if 2 + a.len() <= i < 2 + a.len() + b.len() {
            assert(tag[i] == b[i - 2 - a.len()]);
        }
    }
    visible_text_is_value(tag);
}

/// Sets a field to a text, if the text can be a value.
fn put(headers: &mut HeaderMap, name: &str, value: &str) -> (done: bool)
    requires
        crate::headers::is_header_name(name@),
        crate::headers::header_lists(*old(headers)).len() <= crate::headers::ROOM,
    ensures
        done == is_value_text(value@),
        done ==> crate::headers::header_lists(*final(headers)) == crate::headers::header_lists(
            *old(headers),
        ).insert(crate::headers::lowercase(name@), seq![encode_utf8(value@)]),
{
    match parse_header_value(value.as_bytes()) {
        Ok(bytes) => {
            insert(headers, name, &bytes);
            true
        },
        Err(_) => false,
    }
}

/// The header fields of an answer from the cache, if all the texts can be values.
pub fn cached_headers(date: &str, content_type: &str, etag: &str, len: u64) -> (result: Option<
    HeaderMap,
>)
    ensures
        match result {
            Some(headers) => is_value_text(date@) && is_value_text(content_type@) && is_value_text(
                etag@,
            ) && crate::headers::header_lists(headers) == cached_lists(
                date@,
                content_type@,
                etag@,
                len as nat,
            ),
            None => !is_value_text(date@) || !is_value_text(content_type@) || !is_value_text(etag@),
        },
{
    let mut headers = no_headers();
    proof {
        cached_names();
        tags_are_values(len as nat, 0);
    }
    let done = put(&mut headers, "last-modified", date) && put(
        &mut headers,
        "content-type",
        content_type,
    ) && put(&mut headers, "etag", etag) && put(
        &mut headers,
        "content-length",
        &decimal(len as u128),
    );
    if done {
        Some(headers)
    } else {
        None
    }
}

/// Whether a request already has the file: the first tag that it names is the file's.
pub open spec fn is_revalidation(request: crate::headers::HeaderLists, etag: Seq<char>) -> bool {
    request.contains_key("if-none-match"@) && request["if-none-match"@][0] == encode_utf8(etag)
}

/// Whether a request already has the file with a tag.
fn revalidates(request: &HeaderMap, etag: &str) -> (result: bool)
    ensures
        result == is_revalidation(crate::headers::header_lists(*request), etag@),
{
    proof {
        cached_names();
    }
    match first_value(request, "if-none-match") {
        Some(value) => same_bytes(&value, etag.as_bytes()),
        None => false,
    }
}

/// Whether a reply has a status and lists of header fields, and no body.
pub open spec fn is_head(reply: Reply, status: u16, lists: crate::headers::HeaderLists) -> bool {
    &&& reply.status == status
    &&& crate::headers::header_lists(reply.headers) == lists
    &&& reply.body@ == Seq::<u8>::empty()
}

/// What follows for a file whose date and content type are written out.
///
/// Texts that cannot be values of fields make for an internal error. A request that already has
/// the file is told so; one for the header fields alone gets them; any other waits for the
/// contents.
pub fn answer_cached(
    date: &str,
    content_type: &str,
    etag: &str,
    len: u64,
    method: &str,
    request_headers: &HeaderMap,
) -> (step: CachedStep)
    ensures
        ({
            let lists = cached_lists(date@, content_type@, etag@, len as nat);
            let request = crate::headers::header_lists(*request_headers);
            if !is_value_text(date@) || !is_value_text(content_type@) || !is_value_text(etag@) {
                step matches CachedStep::Respond(reply) && reply.is_bare(INTERNAL_SERVER_ERROR)
            } else if is_revalidation(request, etag@) {
                step matches CachedStep::Respond(reply) && is_head(reply, NOT_MODIFIED, lists)
            } else if method@ == "HEAD"@ {
                step matches CachedStep::Respond(reply) && is_head(reply, OK, lists)
            } else {
                step matches CachedStep::ReadBody(reply) && is_head(reply, OK, lists)
            }
        }),
{
    let headers = match cached_headers(date, content_type, etag, len) {
        Some(headers) => headers,
        None => return CachedStep::Respond(Reply::bare(INTERNAL_SERVER_ERROR)),
    };
    if revalidates(request_headers, etag) {
        return CachedStep::Respond(Reply { status: NOT_MODIFIED, headers, body: Vec::new() });
    }
    let reply = Reply { status: OK, headers, body: Vec::new() };
    if same_text(method, "HEAD") {
        CachedStep::Respond(reply)
    } else {
        CachedStep::ReadBody(reply)
    }
}

/// How `httpdate` writes a number of seconds after the Unix epoch.
pub uninterp spec fn http_date_text(seconds: u64) -> Seq<char>;

/// `httpdate::fmt_http_date` of a time after the Unix epoch. It writes whole seconds only, in
/// letters, digits, blanks, commas and colons, and panics from the year 10000 on.
#[verifier::external_body]
fn http_date(seconds: u64) -> (text: String)
    requires
        seconds < END_OF_DATES,
    ensures
        text@ == http_date_text(seconds),
        is_value_text(text@),
{
    httpdate::fmt_http_date(std::time::UNIX_EPOCH + std::time::Duration::from_secs(seconds))
}

/// The content type that `mime_guess` finds for a path.
pub uninterp spec fn content_type_text(path: Seq<char>) -> Seq<char>;

/// `mime_guess::from_path`, with `application/octet-stream` where it makes no guess. A media type
/// holds no control characters: it is parsed before it is handed out, and the parser refuses them.
#[verifier::external_body]
fn content_type(path: &str) -> (text: String)
    ensures
        text@ == content_type_text(path@),
        is_value_text(text@),
{
    mime_guess::from_path(path).first_or_octet_stream().to_string()
}

/// Whether a step answers a request from a file of the cache: with the status, the header fields
/// and, where the contents are asked for, the wish for them.
pub open spec fn is_cached_response(
    path: Seq<char>,
    metadata: Metadata,
    method: Seq<char>,
    request: crate::headers::HeaderLists,
    step: CachedStep,
) -> bool {
    match metadata.modified {
        Modified::After { seconds, nanoseconds } => {
            let etag = etag_text(metadata.len as nat, milliseconds(seconds, nanoseconds));
            let lists = cached_lists(
                http_date_text(seconds),
                content_type_text(path),
                etag,
                metadata.len as nat,
            );
            if is_revalidation(request, etag) {
                step matches CachedStep::Respond(reply) && is_head(reply, NOT_MODIFIED, lists)
            } else if method == "HEAD"@ {
                step matches CachedStep::Respond(reply) && is_head(reply, OK, lists)
            } else {
                step matches CachedStep::ReadBody(reply) && is_head(reply, OK, lists)
            }
        },
        _ => step matches CachedStep::Respond(reply) && reply.is_bare(INTERNAL_SERVER_ERROR),
    }
}

/// Whether the time of modification, if it is known, can be written as a date.
pub open spec fn is_datable(metadata: Metadata) -> bool {
    metadata.modified matches Modified::After { seconds, .. } ==> seconds < END_OF_DATES
}

/// The answer from a file of the cache, but for the contents of the file.
///
/// A file whose time of modification cannot be told, or predates the epoch, makes for an internal
/// error.
pub fn cached_response(
    path: &str,
    metadata: &Metadata,
    method: &str,
    request_headers: &HeaderMap,
) -> (step: CachedStep)
    requires
        is_datable(*metadata),
    ensures
        is_cached_response(
            path@,
            *metadata,
            method@,
            crate::headers::header_lists(*request_headers),
            step,
        ),
{
    match metadata.modified {
        Modified::After { seconds, nanoseconds } => {
            let millis: u128 = seconds as u128 * 1000 + (nanoseconds / 1000000) as u128;
            let tag = etag(metadata.len, millis);
            proof {
                tags_are_values(metadata.len as nat, millis as nat);
            }
            answer_cached(
                &http_date(seconds),
                &content_type(path),
                &tag,
                metadata.len,
                method,
                request_headers,
            )
        },
        _ => CachedStep::Respond(Reply::bare(INTERNAL_SERVER_ERROR)),
    }
}

/// Whether an answer is what the head of one becomes with the contents of the file. Where these
/// could not be read, it is an internal error.
pub open spec fn is_completed(head: Reply, body: Option<Vec<u8>>, reply: Reply) -> bool {
    match body {
        Some(body) => reply.status == head.status && reply.headers == head.headers && reply.body
            == body,
        None => reply.is_bare(INTERNAL_SERVER_ERROR),
    }
}

/// Completes an answer from the cache with the contents of the file, if they could be read.
pub fn cached_body(head: Reply, body: Option<Vec<u8>>) -> (reply: Reply)
    ensures
        is_completed(head, body, reply),
{
    match body {
        Some(body) => Reply { status: head.status, headers: head.headers, body },
        None => Reply::bare(INTERNAL_SERVER_ERROR),
    }
}

/// Two files have the same tag exactly if they have the same length and were modified in the same
/// millisecond.
pub proof fn etags_are_distinct(len: nat, millis: nat, other_len: nat, other_millis: nat)
    ensures
        etag_text(len, millis) == etag_text(other_len, other_millis) <==> len == other_len && millis
            == other_millis,
{
    let x = etag_text(len, millis);
    let y = etag_text(other_len, other_millis);
    let a = crate::text::decimal_text(len);
    let b = crate::text::decimal_text(millis);
    let c = crate::text::decimal_text(other_len);
    let d = crate::text::decimal_text(other_millis);
    crate::text::decimal_text_is_faithful(len);
    crate::text::decimal_text_is_faithful(millis);
    crate::text::decimal_text_is_faithful(other_len);
    crate::text::decimal_text_is_faithful(other_millis);
    if x == y {
        let m = a.len() as int;
        let n = c.len() as int;
        assert(x[1 + m] == '-');
        assert(y[1 + n] == '-');
        if m < n {
            assert(y[1 + m] == c[m]);
        }
        if n < m {
            assert(x[1 + n] == a[n]);
        }
        assert(a =~= x.subrange(1, 1 + m));
        assert(c =~= y.subrange(1, 1 + n));
        assert(b =~= x.subrange(2 + m, x.len() - 1));
        assert(d =~= y.subrange(2 + n, y.len() - 1));
    }
}

/// A request that names the tag of a file has the file exactly as long as the length of the file
/// and the millisecond of its modification stay the same.
pub proof fn tags_revalidate_until_the_file_changes(
    request: crate::headers::HeaderLists,
    len: nat,
    millis: nat,
    new_len: nat,
    new_millis: nat,
)
    requires
        request.contains_key("if-none-match"@),
        request["if-none-match"@][0] == encode_utf8(etag_text(len, millis)),
    ensures
        is_revalidation(request, etag_text(new_len, new_millis)) <==> len == new_len && millis
            == new_millis,
{
    etags_are_distinct(len, millis, new_len, new_millis);
    encode_utf8_decode_utf8(etag_text(len, millis));
    encode_utf8_decode_utf8(etag_text(new_len, new_millis));
}

/// The answer, or the head of one, that a step has.
pub open spec fn head_of(step: CachedStep) -> Reply {
    match step {
        CachedStep::Respond(reply) => reply,
        CachedStep::ReadBody(reply) => reply,
    }
}

/// An answer from the cache has four header fields: the date of the file, in whole seconds; the
/// content type for its path; its tag, which is its length and the whole milliseconds of its time,
/// with a hyphen between and quotes around them; and its length. Its status is 304 exactly if the
/// first tag that the request names is that tag, else 200. The contents are wanted exactly where the
/// status is 200 and the method is not `HEAD`.
pub proof fn answers_describe_the_file(
    path: Seq<char>,
    metadata: Metadata,
    seconds: u64,
    nanoseconds: u32,
    method: Seq<char>,
    request: crate::headers::HeaderLists,
    step: CachedStep,
)
    requires
        is_cached_response(path, metadata, method, request, step),
        metadata.modified == (Modified::After { seconds, nanoseconds }),
    ensures
        ({
            let lists = crate::headers::header_lists(head_of(step).headers);
            let length = crate::text::decimal_text(metadata.len as nat);
            let time = crate::text::decimal_text(
                (seconds as nat) * 1000 + (nanoseconds as nat) / 1000000,
            );
            let tag = encode_utf8(seq!['"'] + length + seq!['-'] + time + seq!['"']);
            let known = request.contains_key("if-none-match"@) && request["if-none-match"@][0] == tag;
            &&& lists.dom() == set![
                "last-modified"@,
                "content-type"@,
                "etag"@,
                "content-length"@,
            ]
            &&& lists["last-modified"@] == seq![encode_utf8(http_date_text(seconds))]
            &&& lists["content-type"@] == seq![encode_utf8(content_type_text(path))]
            &&& lists["etag"@] == seq![tag]
            &&& lists["content-length"@] == seq![encode_utf8(length)]
            &&& head_of(step).body@.len() == 0
            &&& head_of(step).status == if known {
                304u16
            } else {
                200u16
            }
            &&& step is ReadBody <==> !known && method != "HEAD"@
        }),
{
    cached_fields_are_distinct();
}

/// The names of the fields of an answer from the cache differ.
proof fn cached_fields_are_distinct()
    ensures
        "last-modified"@ != "content-type"@,
        "last-modified"@ != "etag"@,
        "last-modified"@ != "content-length"@,
        "content-type"@ != "etag"@,
        "content-type"@ != "content-length"@,
        "etag"@ != "content-length"@,
{
    reveal_strlit("last-modified");
    reveal_strlit("content-type");
    reveal_strlit("etag");
    reveal_strlit("content-length");
    assert("last-modified"@[0] == 'l');
    assert("content-type"@[0] == 'c');
    assert("etag"@[0] == 'e');
    assert("content-length"@[0] == 'c');
    assert("content-type"@.len() != "content-length"@.len());
}

/// The header fields made of a date, a content type, a tag and a length are those four, each with
/// that one value.
pub proof fn cached_fields_hold_their_texts(
    date: Seq<char>,
    content_type: Seq<char>,
    etag: Seq<char>,
    len: nat,
)
    ensures
        ({
            let lists = cached_lists(date, content_type, etag, len);
            &&& lists.dom() == set![
                "last-modified"@,
                "content-type"@,
                "etag"@,
                "content-length"@,
            ]
            &&& lists["last-modified"@] == seq![encode_utf8(date)]
            &&& lists["content-type"@] == seq![encode_utf8(content_type)]
            &&& lists["etag"@] == seq![encode_utf8(etag)]
            &&& lists["content-length"@] == seq![encode_utf8(crate::text::decimal_text(len))]
        }),
{
    cached_fields_are_distinct();
}

/// A file whose time cannot be told, or predates the epoch, is answered with status 500, without
/// header fields and contents.
pub proof fn files_without_time_are_internal_errors(
    path: Seq<char>,
    metadata: Metadata,
    method: Seq<char>,
    request: crate::headers::HeaderLists,
    step: CachedStep,
)
    requires
        is_cached_response(path, metadata, method, request, step),
        metadata.modified == Modified::Unknown || metadata.modified == Modified::BeforeEpoch,
    ensures
        step matches CachedStep::Respond(reply) && reply.status == 500 && reply.body@.len() == 0
            && crate::headers::header_lists(reply.headers).dom() == Set::<Seq<char>>::empty(),
{
}

/// Tags follow the file: the tags in the answers for two files are the same exactly if the files have
/// the same length, were modified in the same second, and in the same millisecond of it.
pub proof fn tags_follow_length_and_time(
    path: Seq<char>,
    metadata: Metadata,
    seconds: u64,
    nanoseconds: u32,
    method: Seq<char>,
    request: crate::headers::HeaderLists,
    step: CachedStep,
    other_path: Seq<char>,
    other: Metadata,
    other_seconds: u64,
    other_nanoseconds: u32,
    other_method: Seq<char>,
    other_request: crate::headers::HeaderLists,
    other_step: CachedStep,
)
    requires
        is_cached_response(path, metadata, method, request, step),
        metadata.modified == (Modified::After { seconds, nanoseconds }),
        nanoseconds < 1000000000,
        is_cached_response(other_path, other, other_method, other_request, other_step),
        other.modified == (Modified::After {
            seconds: other_seconds,
            nanoseconds: other_nanoseconds,
        }),
        other_nanoseconds < 1000000000,
    ensures
        crate::headers::header_lists(head_of(step).headers)["etag"@] == crate::headers::header_lists(
            head_of(other_step).headers,
        )["etag"@] <==> metadata.len == other.len && seconds == other_seconds && nanoseconds
            / 1000000 == other_nanoseconds / 1000000,
{
    let millis = (seconds as nat) * 1000 + (nanoseconds as nat) / 1000000;
    let other_millis = (other_seconds as nat) * 1000 + (other_nanoseconds as nat) / 1000000;
    let tag = etag_text(metadata.len as nat, millis);
    let other_tag = etag_text(other.len as nat, other_millis);
    answers_describe_the_file(path, metadata, seconds, nanoseconds, method, request, step);
    answers_describe_the_file(
        other_path,
        other,
        other_seconds,
        other_nanoseconds,
        other_method,
        other_request,
        other_step,
    );
    etags_are_distinct(metadata.len as nat, millis, other.len as nat, other_millis);
    encode_utf8_decode_utf8(tag);
    encode_utf8_decode_utf8(other_tag);
    assert(seq![encode_utf8(tag)][0] == encode_utf8(tag));
    assert(seq![encode_utf8(other_tag)][0] == encode_utf8(other_tag));
}

/// A client that names the tag it was given gets the file again exactly if the file has changed: in
/// length, in the second of its modification, or in the millisecond of it.
pub proof fn clients_get_changed_files(
    path: Seq<char>,
    metadata: Metadata,
    seconds: u64,
    nanoseconds: u32,
    method: Seq<char>,
    request: crate::headers::HeaderLists,
    step: CachedStep,
    changed: Metadata,
    new_seconds: u64,
    new_nanoseconds: u32,
    new_method: Seq<char>,
    new_request: crate::headers::HeaderLists,
    new_step: CachedStep,
)
    requires
        is_cached_response(path, metadata, method, request, step),
        metadata.modified == (Modified::After { seconds, nanoseconds }),
        nanoseconds < 1000000000,
        is_cached_response(path, changed, new_method, new_request, new_step),
        changed.modified == (Modified::After {
            seconds: new_seconds,
            nanoseconds: new_nanoseconds,
        }),
        new_nanoseconds < 1000000000,
        new_request.contains_key("if-none-match"@),
        new_request["if-none-match"@] == crate::headers::header_lists(head_of(step).headers)["etag"@],
    ensures
        head_of(new_step).status == if metadata.len == changed.len && seconds == new_seconds
            && nanoseconds / 1000000 == new_nanoseconds / 1000000 {
            304u16
        } else {
            200u16
        },
{
    tags_follow_length_and_time(
        path,
        metadata,
        seconds,
        nanoseconds,
        method,
        request,
        step,
        path,
        changed,
        new_seconds,
        new_nanoseconds,
        new_method,
        new_request,
        new_step,
    );
    answers_describe_the_file(path, metadata, seconds, nanoseconds, method, request, step);
    answers_describe_the_file(
        path,
        changed,
        new_seconds,
        new_nanoseconds,
        new_method,
        new_request,
        new_step,
    );
    let tags = crate::headers::header_lists(head_of(step).headers)["etag"@];
    let new_tags = crate::headers::header_lists(head_of(new_step).headers)["etag"@];
    assert(tags =~= seq![tags[0]]);
    assert(new_tags =~= seq![new_tags[0]]);
}

/// With the contents of the file an answer has them as its body, and is else as it was. Without, it
/// has status 500, no header fields and no body.
pub proof fn contents_become_the_body(head: Reply, contents: Option<Vec<u8>>, reply: Reply)
    requires
        is_completed(head, contents, reply),
    ensures
        match contents {
            Some(bytes) => reply.body@ == bytes@ && reply.status == head.status && reply.headers
                == head.headers,
            None => reply.status == 500 && reply.body@.len() == 0 && crate::headers::header_lists(
                reply.headers,
            ).dom() == Set::<Seq<char>>::empty(),
        },
{
}

/// A text can be the value of a field exactly if its bytes are no control characters, but for the tab.
pub proof fn value_texts_hold_no_control_characters(text: Seq<char>)
    ensures
        is_value_text(text) <==> forall|i: int|
            0 <= i < encode_utf8(text).len() ==> (#[trigger] encode_utf8(text)[i] >= 32
                && encode_utf8(text)[i] != 127 || encode_utf8(text)[i] == 9),
{
    let bytes = encode_utf8(text);
    if is_value_text(text) {
        assert forall|i: int| 0 <= i < bytes.len() implies (#[trigger] bytes[i] >= 32 && bytes[i]
            != 127 || bytes[i] == 9) by {
            assert(crate::headers::is_value_byte(bytes[i]));
        }
    }
}

} // verus!
