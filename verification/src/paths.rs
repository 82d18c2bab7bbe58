//! From the path of a request to a file below the cache root.
//!
//! Paths are text whose segments are separated by `/`, as on Unix.

use vstd::prelude::*;
use vstd::string::*;
use vstd::utf8::*;
use crate::text::same_text;

verus! {

/// Why a request path names no file of the cache.
#[derive(Debug, Clone, Copy, PartialEq, Eq, Structural)]
pub enum PathError {
    /// The path is not valid UTF-8 after percent decoding.
    NotUtf8,
    /// The path escapes the cache directory.
    EscapesCacheDirectory,
}

#[verifier::external_type_specification]
#[verifier::external_body]
pub struct ExUtf8Error(core::str::Utf8Error);

/// The value of a hexadecimal digit.
pub open spec fn hex_value(byte: u8) -> Option<u8> {
    if 48 <= byte <= 57 {
        Some((byte - 48) as u8)
    } else if 65 <= byte <= 70 {
        Some((byte - 55) as u8)
    } else if 97 <= byte <= 102 {
        Some((byte - 87) as u8)
    } else {
        None
    }
}

/// Whether the bytes begin with `%` and two hexadecimal digits.
pub open spec fn starts_escape(bytes: Seq<u8>) -> bool {
    bytes.len() >= 3 && bytes[0] == 37 && hex_value(bytes[1]) is Some && hex_value(bytes[2]) is Some
}

/// The bytes with every `%` that two hexadecimal digits follow replaced by the byte they name.
pub open spec fn percent_decoded(bytes: Seq<u8>) -> Seq<u8>
    decreases bytes.len(),
{
    if bytes.len() == 0 {
        bytes
    } else if starts_escape(bytes) {
        seq![(16 * hex_value(bytes[1])->0 + hex_value(bytes[2])->0) as u8] + percent_decoded(
            bytes.skip(3),
        )
    } else {
        seq![bytes[0]] + percent_decoded(bytes.skip(1))
    }
}

/// `percent_encoding::percent_decode_str`, read as UTF-8: the text whose bytes are the decoded
/// bytes of the path, or an error exactly where those bytes are not valid UTF-8.
#[verifier::external_body]
fn percent_decode_utf8(path: &str) -> (result: Result<String, core::str::Utf8Error>)
    ensures
        result is Ok <==> valid_utf8(percent_decoded(encode_utf8(path@))),
        result matches Ok(text) ==> text@ == decode_utf8(percent_decoded(encode_utf8(path@))),
{
    percent_encoding::percent_decode_str(path).decode_utf8().map(|text| text.into_owned())
}

/// The text that a request path stands for, if it stands for any.
pub open spec fn decoded_text(path: Seq<char>) -> Option<Seq<char>> {
    let bytes = percent_decoded(encode_utf8(path));
    if valid_utf8(bytes) {
        Some(decode_utf8(bytes))
    } else {
        None
    }
}

/// Decodes the percent escapes of a request path.
pub fn decoded_path(path: &str) -> (result: Result<String, PathError>)
    ensures
        match result {
            Ok(text) => decoded_text(path@) == Some(text@),
            Err(error) => decoded_text(path@) is None && error == PathError::NotUtf8,
        },
        result is Ok <==> valid_utf8(percent_decoded(encode_utf8(path@))),
        result matches Ok(text) ==> encode_utf8(text@) == percent_decoded(encode_utf8(path@)),
{
    proof {
        if valid_utf8(percent_decoded(encode_utf8(path@))) {
            decode_utf8_encode_utf8(percent_decoded(encode_utf8(path@)));
        }
    }
    match percent_decode_utf8(path) {
        Ok(text) => Ok(text),
        Err(_) => Err(PathError::NotUtf8),
    }
}

/// The segments of a path, between slashes; a path always has at least one, perhaps empty.
pub open spec fn segments(path: Seq<char>) -> Seq<Seq<char>>
    decreases path.len(),
{
    if path.len() == 0 {
        seq![Seq::empty()]
    } else {
        let before = segments(path.drop_last());
        if path.last() == '/' {
            before.push(Seq::empty())
        } else {
            before.drop_last().push(before.last().push(path.last()))
        }
    }
}

/// The segment that names the directory itself.
pub open spec fn here() -> Seq<char> {
    seq!['.']
}

/// The segment that names the directory above.
pub open spec fn above() -> Seq<char> {
    seq!['.', '.']
}

/// Whether a segment counts: empty ones and `.` change nothing.
pub open spec fn counts(segment: Seq<char>) -> bool {
    segment.len() > 0 && segment != here()
}

/// The segments of a path that count.
pub open spec fn parts(path: Seq<char>) -> Seq<Seq<char>> {
    segments(path).filter(|segment: Seq<char>| counts(segment))
}

/// Whether a path has a segment that names the directory above.
pub open spec fn climbs(path: Seq<char>) -> bool {
    segments(path).contains(above())
}

/// A path ready to take another segment: with a slash at its end, unless it is empty.
pub open spec fn opened(path: Seq<char>) -> Seq<char> {
    if path.len() == 0 || path.last() == '/' {
        path
    } else {
        path.push('/')
    }
}

/// A path extended by segments, one after the other.
pub open spec fn joined(root: Seq<char>, parts: Seq<Seq<char>>) -> Seq<char>
    decreases parts.len(),
{
    if parts.len() == 0 {
        root
    } else {
        opened(joined(root, parts.drop_last())) + parts.last()
    }
}

/// Filtering a sequence that grew by one element.
proof fn filter_push<A>(s: Seq<A>, keep: spec_fn(A) -> bool, last: A)
    ensures
        s.push(last).filter(keep) == if keep(last) {
            s.filter(keep).push(last)
        } else {
            s.filter(keep)
        },
{
    reveal(Seq::filter);
    assert(s.push(last).drop_last() =~= s);
}

/// What a filter lets through comes from the sequence and meets the filter.
proof fn filter_selects<A>(s: Seq<A>, keep: spec_fn(A) -> bool, i: int)
    requires
        0 <= i < s.filter(keep).len(),
    ensures
        keep(s.filter(keep)[i]),
        s.contains(s.filter(keep)[i]),
    decreases s.len(),
{
    reveal(Seq::filter);
    let before = s.drop_last();
    if i < before.filter(keep).len() {
        filter_selects(before, keep, i);
        let j = choose|j: int| 0 <= j < before.len() && before[j] == before.filter(keep)[i];
        assert(s[j] == s.filter(keep)[i]);
    } else {
        assert(s[s.len() - 1] == s.filter(keep)[i]);
    }
}

/// A path has at least one segment, and no segment holds a slash.
pub(crate) proof fn segments_hold_no_slash(path: Seq<char>)
    ensures
        segments(path).len() > 0,
        forall|i: int| 0 <= i < segments(path).len() ==> !(#[trigger] segments(path)[i]).contains('/'),
    decreases path.len(),
{
    if path.len() > 0 {
        let before = segments(path.drop_last());
        segments_hold_no_slash(path.drop_last());
        assert(!before.last().contains('/'));
        assert forall|i: int| 0 <= i < segments(path).len() implies !(#[trigger] segments(
            path,
        )[i]).contains('/') by {
            let grown = before.last().push(path.last());
            if path.last() != '/' && grown.contains('/') {
                let j = choose|j: int| 0 <= j < grown.len() && grown[j] == '/';
                assert(before.last()[j] == '/');
            }
        }
    }
}

/// Cuts a path at its slashes.
fn split(path: &str) -> (result: Vec<String>)
    ensures
        result@.map_values(|segment: String| segment@) == segments(path@),
{
    let mut done: Vec<String> = Vec::new();
    let mut segment = String::new();
    let ghost text = |segment: String| segment@;
    assert(done@.map_values(text) =~= segments(path@.take(0)).drop_last());
    for c in it: path.chars()
        invariant
            it.seq() == path@,
            text == (|segment: String| segment@),
            segments(path@.take(it.index())) == done@.map_values(text).push(segment@),
    {
        let ghost seen = path@.take(it.index());
        let ghost next = path@.take(it.index() + 1);
        let ghost before = done@.map_values(text);
        assert(next.drop_last() =~= seen);
        if c == '/' {
            done.push(segment);
            assert(done@.map_values(text) =~= segments(seen));
            segment = String::new();
        } else {
            segment.push(c);
            assert(segments(seen).drop_last() =~= before);
        }
    }
    assert(path@.take(path@.len() as int) =~= path@);
    let ghost before = done@.map_values(text);
    done.push(segment);
    assert(done@.map_values(text) =~= before.push(segment@));
    done
}

/// Whether the path is empty or ends in a slash.
pub(crate) fn is_open(path: &str) -> (open: bool)
    ensures
        open == (path@.len() == 0 || path@.last() == '/'),
{
    let mut open: bool = true;
    for c in it: path.chars()
        invariant
            it.seq() == path@,
            open == (it.index() == 0 || path@[it.index() - 1] == '/'),
    {
        open = c == '/';
    }
    open
}

/// The file of the cache that stands for a decoded request path.
///
/// Every segment of the path that counts becomes one below the root. A path that names the
/// directory above, anywhere, is refused.
pub fn cache_path(root: &str, path: &str) -> (result: Result<String, PathError>)
    ensures
        match result {
            Ok(cached) => !climbs(path@) && cached@ == joined(root@, parts(path@)),
            Err(error) => climbs(path@) && error == PathError::EscapesCacheDirectory,
        },
        result is Err <==> segments(path@).contains(seq!['.', '.']),
{
    let mut result = root.to_owned();
    let mut open = is_open(root);
    let components = split(path);
    let ghost all = segments(path@);
    let ghost keep = |segment: Seq<char>| counts(segment);
    proof {
        reveal_strlit(".");
        reveal_strlit("..");
        assert("."@ =~= here());
        assert(".."@ =~= above());
        segments_hold_no_slash(path@);
        assert(all.take(0).filter(keep) =~= Seq::empty()) by {
            reveal(Seq::filter);
        }
    }
    for i in 0..components.len()
        invariant
            all == segments(path@),
            all == components@.map_values(|segment: String| segment@),
            forall|j: int| 0 <= j < all.len() ==> !(#[trigger] all[j]).contains('/'),
            keep == (|segment: Seq<char>| counts(segment)),
            "."@ == here(),
            ".."@ == above(),
            forall|j: int| 0 <= j < i ==> all[j] != above(),
            result@ == joined(root@, all.take(i as int).filter(keep)),
            open == (result@.len() == 0 || result@.last() == '/'),
    {
        let component = components[i].as_str();
        proof {
            assert(component@ == all[i as int]);
            assert(all.take(i + 1) =~= all.take(i as int).push(component@));
            filter_push(all.take(i as int), keep, component@);
        }
        if same_text(component, "..") {
            assert(all.contains(above()));
            return Err(PathError::EscapesCacheDirectory);
        }
        if !component.is_empty() && !same_text(component, ".") {
            if !open {
                result.push('/');
            }
            result.append(component);
            open = false;
            proof {
                let kept = all.take(i as int).filter(keep);
                assert(kept.push(component@).drop_last() =~= kept);
                assert(component@.last() != '/') by {
                    assert(all[i as int].contains(component@.last()));
                }
            }
        }
    }
    assert(all.take(all.len() as int) =~= all);
    Ok(result)
}

/// Whether a segment names an entry of the directory it is looked up in.
pub open spec fn plain(segment: Seq<char>) -> bool {
    counts(segment) && segment != above() && !segment.contains('/')
}

/// The segments of a path that goes on after a slash.
pub(crate) proof fn segments_after_slash(left: Seq<char>, right: Seq<char>)
    ensures
        segments(left.push('/') + right) == segments(left) + segments(right),
    decreases right.len(),
{
    let whole = left.push('/') + right;
    if right.len() == 0 {
        assert(whole.drop_last() =~= left);
        assert(segments(whole) =~= segments(left) + segments(right));
    } else {
        segments_after_slash(left, right.drop_last());
        segments_hold_no_slash(right.drop_last());
        assert(whole.drop_last() =~= left.push('/') + right.drop_last());
        assert(segments(whole) =~= segments(left) + segments(right));
    }
}

/// A path without a slash is its own only segment.
pub(crate) proof fn segments_without_slash(path: Seq<char>)
    requires
        !path.contains('/'),
    ensures
        segments(path) == seq![path],
    decreases path.len(),
{
    if path.len() == 0 {
        assert(path =~= Seq::empty());
    } else {
        assert forall|c: char| path.drop_last().contains(c) implies path.contains(c) by {
            let i = choose|i: int| 0 <= i < path.len() - 1 && path.drop_last()[i] == c;
            assert(path[i] == c);
        }
        segments_without_slash(path.drop_last());
        assert(path.drop_last().push(path.last()) =~= path);
        assert(path.contains(path.last()));
        assert(segments(path) =~= seq![path]);
    }
}

/// Joining plain segments and cutting the result at its slashes gives the segments back.
proof fn segments_of_joined(names: Seq<Seq<char>>)
    requires
        names.len() > 0,
        forall|i: int| 0 <= i < names.len() ==> plain(#[trigger] names[i]),
    ensures
        segments(joined(Seq::empty(), names)) == names,
        joined(Seq::empty(), names).len() > 0,
        joined(Seq::empty(), names).last() != '/',
    decreases names.len(),
{
    let before = names.drop_last();
    let name = names.last();
    assert(plain(names[names.len() - 1]));
    assert(name.contains(name.last()));
    segments_without_slash(name);
    if before.len() == 0 {
        reveal_with_fuel(joined, 2);
        assert(joined(Seq::empty(), names) =~= name);
        assert(names =~= seq![name]);
    } else {
        assert forall|i: int| 0 <= i < before.len() implies plain(#[trigger] before[i]) by {
            assert(plain(names[i]));
        }
        segments_of_joined(before);
        segments_after_slash(joined(Seq::empty(), before), name);
        assert(before + seq![name] =~= names);
    }
}

/// Joining below a root is joining below nothing, set behind the root.
proof fn joined_below(root: Seq<char>, names: Seq<Seq<char>>)
    requires
        names.len() > 0,
        forall|i: int| 0 <= i < names.len() ==> plain(#[trigger] names[i]),
    ensures
        joined(root, names) == opened(root) + joined(Seq::empty(), names),
    decreases names.len(),
{
    let before = names.drop_last();
    if before.len() == 0 {
        reveal_with_fuel(joined, 2);
        assert(joined(root, names) =~= opened(root) + joined(Seq::empty(), names));
    } else {
        assert forall|i: int| 0 <= i < before.len() implies plain(#[trigger] before[i]) by {
            assert(plain(names[i]));
        }
        joined_below(root, before);
        segments_of_joined(before);
        assert(joined(root, names) =~= opened(root) + joined(Seq::empty(), names));
    }
}

/// The segments that count in a path that does not climb are plain.
pub(crate) proof fn parts_are_plain(path: Seq<char>)
    requires
        !climbs(path),
    ensures
        forall|i: int| 0 <= i < parts(path).len() ==> plain(#[trigger] parts(path)[i]),
{
    let keep = |segment: Seq<char>| counts(segment);
    segments_hold_no_slash(path);
    assert forall|i: int| 0 <= i < parts(path).len() implies plain(#[trigger] parts(path)[i]) by {
        filter_selects(segments(path), keep, i);
        let j = choose|j: int|
            0 <= j < segments(path).len() && segments(path)[j] == parts(path)[i];
        assert(!segments(path)[j].contains('/'));
        assert(segments(path).contains(segments(path)[j]));
    }
}

/// Plain segments below a root are the segments of what stands behind the root.
pub(crate) proof fn plain_names_stay_under_the_root(root: Seq<char>, names: Seq<Seq<char>>)
    requires
        names.len() > 0,
        forall|i: int| 0 <= i < names.len() ==> plain(#[trigger] names[i]),
    ensures
        exists|rest: Seq<char>|
            joined(root, names) == opened(root) + rest && #[trigger] segments(rest) == names,
{
    joined_below(root, names);
    segments_of_joined(names);
    let rest = joined(Seq::empty(), names);
    assert(joined(root, names) == opened(root) + rest && segments(rest) == names);
}

/// Cache paths stay under the cache root: the file for a path is the root itself, or the root, a
/// slash where it needs one, and a rest whose segments are the ones that count in the path. No
/// segment of the rest leads out of the directory it is looked up in.
pub proof fn cache_paths_stay_under_the_root(root: Seq<char>, path: Seq<char>)
    requires
        !climbs(path),
    ensures
        parts(path).len() == 0 ==> joined(root, parts(path)) == root,
        parts(path).len() > 0 ==> exists|rest: Seq<char>|
            joined(root, parts(path)) == opened(root) + rest && #[trigger] segments(rest) == parts(
                path,
            ),
        forall|i: int| 0 <= i < parts(path).len() ==> plain(#[trigger] parts(path)[i]),
{
    parts_are_plain(path);
    if parts(path).len() > 0 {
        plain_names_stay_under_the_root(root, parts(path));
    }
}

/// Two paths share a file of the cache only if the same segments count in both.
pub proof fn cache_paths_are_distinct(root: Seq<char>, left: Seq<char>, right: Seq<char>)
    requires
        !climbs(left),
        !climbs(right),
    ensures
        joined(root, parts(left)) == joined(root, parts(right)) <==> parts(left) == parts(right),
{
    parts_are_plain(left);
    parts_are_plain(right);
    let a = parts(left);
    let b = parts(right);
    if joined(root, a) == joined(root, b) {
        let base = opened(root);
        if a.len() > 0 {
            joined_below(root, a);
            segments_of_joined(a);
        }
        if b.len() > 0 {
            joined_below(root, b);
            segments_of_joined(b);
        }
        if a.len() > 0 && b.len() > 0 {
            let x = joined(Seq::empty(), a);
            let y = joined(Seq::empty(), b);
            assert(x =~= (base + x).skip(base.len() as int));
            assert(y =~= (base + y).skip(base.len() as int));
        } else {
            assert(a.len() == 0 && b.len() == 0);
            assert(a =~= b);
        }
    }
}

/// The bytes of a character: its own code where that is below 128, else bytes from 128 on.
proof fn scalar_bytes(scalar: u32)
    requires
        is_scalar(scalar),
    ensures
        scalar < 128 ==> encode_scalar(scalar) == seq![scalar as u8],
        scalar >= 128 ==> forall|i: int|
            0 <= i < encode_scalar(scalar).len() ==> #[trigger] encode_scalar(scalar)[i] >= 128,
{
    assert(scalar < 128 ==> (scalar & 0x7f) as u8 == scalar as u8) by (bit_vector);
    assert((0xC0u8 | ((scalar >> 6) & 0x1F) as u8) >= 128u8) by (bit_vector);
    assert((0xE0u8 | ((scalar >> 12) & 0x0F) as u8) >= 128u8) by (bit_vector);
    assert((0xF0u8 | ((scalar >> 18) & 0x7) as u8) >= 128u8) by (bit_vector);
    assert((0x80u8 | (scalar & 0x3F) as u8) >= 128u8) by (bit_vector);
    assert((0x80u8 | ((scalar >> 6) & 0x3F) as u8) >= 128u8) by (bit_vector);
    assert((0x80u8 | ((scalar >> 12) & 0x3F) as u8) >= 128u8) by (bit_vector);
}

/// A text without `%` has no such byte.
proof fn no_percent_byte(text: Seq<char>)
    requires
        !text.contains('%'),
    ensures
        forall|i: int| 0 <= i < encode_utf8(text).len() ==> #[trigger] encode_utf8(text)[i] != 37,
    decreases text.len(),
{
    if text.len() > 0 {
        let first = text[0];
        let rest = text.drop_first();
        assert(first != '%') by {
            assert(text.contains(first));
        }
        assert(!rest.contains('%')) by {
            if rest.contains('%') {
                let i = choose|i: int| 0 <= i < rest.len() && rest[i] == '%';
                assert(text[i + 1] == '%');
            }
        }
        no_percent_byte(rest);
        char_is_scalar(first);
        scalar_bytes(first as u32);
        let code = first as u32;
        let head = encode_scalar(code);
        char_u32_cast(first, code);
        char_u32_cast('%', 37);
        assert(code != 37);
        assert(code < 128 ==> code as u8 == code);
        assert forall|i: int| 0 <= i < encode_utf8(text).len() implies #[trigger] encode_utf8(
            text,
        )[i] != 37 by {
            if i >= head.len() {
                assert(encode_utf8(text)[i] == encode_utf8(rest)[i - head.len()]);
            } else {
                assert(encode_utf8(text)[i] == head[i]);
            }
        }
    }
}

/// Bytes without `%` are their own decoding.
proof fn percent_decoded_unchanged(bytes: Seq<u8>)
    requires
        forall|i: int| 0 <= i < bytes.len() ==> #[trigger] bytes[i] != 37,
    ensures
        percent_decoded(bytes) == bytes,
    decreases bytes.len(),
{
    if bytes.len() > 0 {
        let rest = bytes.skip(1);
        assert forall|i: int| 0 <= i < rest.len() implies #[trigger] rest[i] != 37 by {
            assert(bytes[i + 1] != 37);
        }
        percent_decoded_unchanged(rest);
        assert(percent_decoded(bytes) =~= bytes);
    }
}

/// A path without a percent sign stands for itself.
pub proof fn decoding_keeps_plain_paths(path: Seq<char>)
    requires
        !path.contains('%'),
    ensures
        decoded_text(path) == Some(path),
{
    no_percent_byte(path);
    percent_decoded_unchanged(encode_utf8(path));
    encode_utf8_valid_utf8(path);
    encode_utf8_decode_utf8(path);
}

/// Segments with a slash between any two.
pub open spec fn slashed(segments: Seq<Seq<char>>) -> Seq<char>
    decreases segments.len(),
{
    if segments.len() <= 1 {
        segments.last()
    } else {
        slashed(segments.drop_last()).push('/') + segments.last()
    }
}

/// The segments of a path are what stands between its slashes: put together with slashes, they are
/// the path, and none of them holds a slash. Whatever else has no slash in any part and makes up the
/// path is the same.
pub proof fn segments_are_what_slashes_separate(path: Seq<char>, others: Seq<Seq<char>>)
    ensures
        segments(path).len() > 0,
        forall|i: int| 0 <= i < segments(path).len() ==> !(#[trigger] segments(path)[i]).contains('/'),
        slashed(segments(path)) == path,
        others.len() > 0 && (forall|i: int|
            0 <= i < others.len() ==> !(#[trigger] others[i]).contains('/')) && slashed(others) == path
            ==> others == segments(path),
{
    segments_hold_no_slash(path);
    slashed_segments(path);
    if others.len() > 0 && (forall|i: int|
        0 <= i < others.len() ==> !(#[trigger] others[i]).contains('/')) && slashed(others)
        == path {
        segments_of_slashed(others);
    }
}

/// The segments of a path make up the path.
proof fn slashed_segments(path: Seq<char>)
    ensures
        slashed(segments(path)) == path,
    decreases path.len(),
{
    if path.len() == 0 {
        assert(path =~= Seq::empty());
    } else {
        let before = segments(path.drop_last());
        segments_hold_no_slash(path.drop_last());
        slashed_segments(path.drop_last());
        assert(path.drop_last().push(path.last()) =~= path);
        if path.last() == '/' {
            assert(segments(path).drop_last() =~= before);
            assert(slashed(segments(path)) =~= path);
        } else {
            assert(segments(path).drop_last() =~= before.drop_last());
            assert(slashed(segments(path)) =~= path);
        }
    }
}

/// What has no slash in any part is what the slashes between the parts separate.
proof fn segments_of_slashed(others: Seq<Seq<char>>)
    requires
        others.len() > 0,
        forall|i: int| 0 <= i < others.len() ==> !(#[trigger] others[i]).contains('/'),
    ensures
        segments(slashed(others)) == others,
    decreases others.len(),
{
    let before = others.drop_last();
    assert(!others[others.len() - 1].contains('/'));
    segments_without_slash(others.last());
    if before.len() > 0 {
        assert forall|i: int| 0 <= i < before.len() implies !(#[trigger] before[i]).contains('/') by {
            assert(!others[i].contains('/'));
        }
        segments_of_slashed(before);
        segments_after_slash(slashed(before), others.last());
        assert(before + seq![others.last()] =~= others);
    } else {
        assert(others =~= seq![others.last()]);
    }
}

/// The file for a path grows with the path, segment by segment. A segment that is empty or `.` leaves
/// the file as it is. Every other segment goes behind it, with a slash between the two unless there
/// is one or nothing stands before it. A path is refused exactly if one of its segments is `..`.
pub proof fn cache_files_grow_by_segments(root: Seq<char>, path: Seq<char>, segment: Seq<char>)
    requires
        !segment.contains('/'),
    ensures
        ({
            let file = joined(root, parts(path));
            let longer = joined(root, parts(path.push('/') + segment));
            if segment.len() == 0 || segment == seq!['.'] {
                longer == file
            } else if file.len() == 0 || file.last() == '/' {
                longer == file + segment
            } else {
                longer == file.push('/') + segment
            }
        }),
        if segment.len() == 0 || segment == seq!['.'] {
            joined(root, parts(segment)) == root
        } else if root.len() == 0 || root.last() == '/' {
            joined(root, parts(segment)) == root + segment
        } else {
            joined(root, parts(segment)) == root.push('/') + segment
        },
        climbs(path.push('/') + segment) <==> climbs(path) || segment == seq!['.', '.'],
        climbs(segment) <==> segment == seq!['.', '.'],
{
    let keep = |segment: Seq<char>| counts(segment);
    segments_without_slash(segment);
    segments_after_slash(path, segment);
    let longer = segments(path).push(segment);
    assert(segments(path) + seq![segment] =~= longer);
    assert(Seq::<Seq<char>>::empty().push(segment) =~= seq![segment]);
    filter_push(segments(path), keep, segment);
    filter_push(Seq::<Seq<char>>::empty(), keep, segment);
    assert(Seq::<Seq<char>>::empty().filter(keep) =~= Seq::empty()) by {
        reveal(Seq::filter);
    }
    reveal_with_fuel(joined, 2);
    assert(parts(path).push(segment).drop_last() =~= parts(path));
    assert(seq![segment].drop_last() =~= Seq::empty());
    assert(seq![segment][0] == segment);
    assert(longer[longer.len() - 1] == segment);
    assert(climbs(path.push('/') + segment) ==> climbs(path) || segment == seq!['.', '.']) by {
        if longer.contains(above()) {
            let i = choose|i: int| 0 <= i < longer.len() && longer[i] == above();
            if i < segments(path).len() {
                assert(segments(path)[i] == above());
            }
        }
    }
    assert(climbs(path) ==> climbs(path.push('/') + segment)) by {
        if segments(path).contains(above()) {
            let i = choose|i: int| 0 <= i < segments(path).len() && segments(path)[i] == above();
            assert(longer[i] == above());
        }
    }
}

/// Every segment of a path other than the empty one and `.` is a segment of the file below the root,
/// in order, and there are no others.
pub proof fn cache_files_keep_every_segment(root: Seq<char>, path: Seq<char>)
    requires
        !segments(path).contains(seq!['.', '.']),
    ensures
        ({
            let kept = segments(path).filter(
                |segment: Seq<char>| segment.len() > 0 && segment != seq!['.'],
            );
            let file = joined(root, parts(path));
            if kept.len() == 0 {
                file == root
            } else if root.len() == 0 || root.last() == '/' {
                file == root + slashed(kept)
            } else {
                file == root.push('/') + slashed(kept)
            }
        }),
{
    let kept = |segment: Seq<char>| segment.len() > 0 && segment != seq!['.'];
    assert(kept =~= |segment: Seq<char>| counts(segment));
    cache_paths_stay_under_the_root(root, path);
    if parts(path).len() > 0 {
        let rest = choose|rest: Seq<char>|
            joined(root, parts(path)) == opened(root) + rest && #[trigger] segments(rest) == parts(
                path,
            );
        slashed_segments(rest);
    }
}

/// A path whose segments, after a slash at its beginning, are neither empty nor `.` nor `..` names
/// the file that is written like it below the root. So two such paths share a file only if they are
/// the same path.
pub proof fn paths_in_plain_form_have_files_of_their_own(
    root: Seq<char>,
    left: Seq<char>,
    right: Seq<char>,
)
    requires
        forall|i: int|
            0 <= i < segments(left).len() ==> (#[trigger] segments(left)[i]).len() > 0 && segments(
                left,
            )[i] != seq!['.'] && segments(left)[i] != seq!['.', '.'],
        forall|i: int|
            0 <= i < segments(right).len() ==> (#[trigger] segments(right)[i]).len() > 0 && segments(
                right,
            )[i] != seq!['.'] && segments(right)[i] != seq!['.', '.'],
    ensures
        ({
            let file = joined(root, parts(seq!['/'] + left));
            if root.len() == 0 || root.last() == '/' {
                file == root + left
            } else {
                file == root.push('/') + left
            }
        }),
        joined(root, parts(left)) == joined(root, parts(seq!['/'] + left)),
        joined(root, parts(seq!['/'] + left)) == joined(root, parts(seq!['/'] + right)) ==> left
            == right,
{
    plain_path_is_kept(root, left);
    plain_path_is_kept(root, right);
    let base = opened(root);
    if base + left == base + right {
        assert(left =~= (base + left).skip(base.len() as int));
        assert(right =~= (base + right).skip(base.len() as int));
    }
}

/// The file for a path whose segments all count.
proof fn plain_path_is_kept(root: Seq<char>, path: Seq<char>)
    requires
        forall|i: int|
            0 <= i < segments(path).len() ==> (#[trigger] segments(path)[i]).len() > 0 && segments(
                path,
            )[i] != seq!['.'] && segments(path)[i] != seq!['.', '.'],
    ensures
        joined(root, parts(path)) == opened(root) + path,
        joined(root, parts(seq!['/'] + path)) == opened(root) + path,
{
    let keep = |segment: Seq<char>| counts(segment);
    let none = Seq::<char>::empty();
    segments_hold_no_slash(path);
    slashed_segments(path);
    keeps_all(segments(path), keep);
    segments_after_slash(none, path);
    assert(none.push('/') =~= seq!['/']);
    assert(segments(none) =~= seq![none]);
    filter_drops_first(segments(path), keep, none);
    assert forall|i: int| 0 <= i < segments(path).len() implies plain(#[trigger] segments(path)[i]) by {
        assert(segments(path)[i].len() > 0);
    }
    joined_below(root, segments(path));
    segments_of_joined(segments(path));
    let rest = joined(none, segments(path));
    slashed_segments(rest);
}

/// A filter that all elements meet keeps them all.
proof fn keeps_all<A>(s: Seq<A>, keep: spec_fn(A) -> bool)
    requires
        forall|i: int| 0 <= i < s.len() ==> keep(#[trigger] s[i]),
    ensures
        s.filter(keep) == s,
    decreases s.len(),
{
    reveal(Seq::filter);
    if s.len() > 0 {
        let before = s.drop_last();
        assert forall|i: int| 0 <= i < before.len() implies keep(#[trigger] before[i]) by {
            assert(keep(s[i]));
        }
        keeps_all(before, keep);
        assert(keep(s[s.len() - 1]));
        assert(before.push(s.last()) =~= s);
    }
    assert(s.filter(keep) =~= s);
}

/// A first element that a filter does not let through makes no difference.
proof fn filter_drops_first<A>(s: Seq<A>, keep: spec_fn(A) -> bool, first: A)
    requires
        !keep(first),
    ensures
        (seq![first] + s).filter(keep) == s.filter(keep),
    decreases s.len(),
{
    let all = seq![first] + s;
    if s.len() == 0 {
        assert(all =~= Seq::empty().push(first));
        filter_push(Seq::empty(), keep, first);
        assert(s =~= Seq::empty());
    } else {
        filter_drops_first(s.drop_last(), keep, first);
        assert(all =~= (seq![first] + s.drop_last()).push(s.last()));
        assert(s =~= s.drop_last().push(s.last()));
        filter_push(seq![first] + s.drop_last(), keep, s.last());
        filter_push(s.drop_last(), keep, s.last());
    }
}

/// Behind bytes without `%`, an escape stands for the byte that its two digits make up, in base 16,
/// in upper or lower case. A `%` without two such digits behind it stands for itself. What follows
/// is decoded on its own.
pub proof fn escapes_stand_for_bytes(before: Seq<u8>, high: nat, low: nat, after: Seq<u8>, upper: bool)
    requires
        forall|i: int| 0 <= i < before.len() ==> #[trigger] before[i] != 37,
        high < 16,
        low < 16,
    ensures
        ({
            let digits = if upper {
                "0123456789ABCDEF"@
            } else {
                "0123456789abcdef"@
            };
            let escape = seq![37u8, digits[high as int] as u8, digits[low as int] as u8];
            percent_decoded(before + escape + after) == before.push((16 * high + low) as u8)
                + percent_decoded(after)
        }),
        after.len() < 2 || !is_hex_digit(after[0]) || !is_hex_digit(after[1]) ==> percent_decoded(
            before.push(37) + after,
        ) == before.push(37) + percent_decoded(after),
        percent_decoded(before) == before,
{
    reveal_strlit("0123456789ABCDEF");
    reveal_strlit("0123456789abcdef");
    let digits = if upper {
        "0123456789ABCDEF"@
    } else {
        "0123456789abcdef"@
    };
    let escape = seq![37u8, digits[high as int] as u8, digits[low as int] as u8];
    assert(hex_value(digits[high as int] as u8) == Some(high as u8));
    assert(hex_value(digits[low as int] as u8) == Some(low as u8));
    percent_decoded_unchanged(before);
    decoded_behind(before, escape + after);
    assert(before + escape + after =~= before + (escape + after));
    assert((escape + after).skip(3) =~= after);
    assert(percent_decoded(before + escape + after) =~= before.push((16 * high + low) as u8)
        + percent_decoded(after));
    let rest = seq![37u8] + after;
    decoded_behind(before, rest);
    assert(before.push(37) + after =~= before + rest);
    assert(rest.skip(1) =~= after);
    assert(after.len() < 2 || !is_hex_digit(after[0]) || !is_hex_digit(after[1])
        ==> percent_decoded(before.push(37) + after) =~= before.push(37) + percent_decoded(after));
}

/// Whether a byte is a digit in base 16, in upper or lower case.
pub open spec fn is_hex_digit(byte: u8) -> bool {
    '0' <= byte as char <= '9' || 'A' <= byte as char <= 'F' || 'a' <= byte as char <= 'f'
}

/// Bytes without `%` stand for themselves, whatever follows them.
proof fn decoded_behind(before: Seq<u8>, after: Seq<u8>)
    requires
        forall|i: int| 0 <= i < before.len() ==> #[trigger] before[i] != 37,
    ensures
        percent_decoded(before + after) == before + percent_decoded(after),
    decreases before.len(),
{
    if before.len() == 0 {
        assert(before + after =~= after);
        assert(before + percent_decoded(after) =~= percent_decoded(after));
    } else {
        let rest = before.skip(1);
        assert forall|i: int| 0 <= i < rest.len() implies #[trigger] rest[i] != 37 by {
            assert(before[i + 1] != 37);
        }
        decoded_behind(rest, after);
        assert((before + after).skip(1) =~= rest + after);
        assert(percent_decoded(before + after) =~= before + percent_decoded(after));
    }
}

/// A path stands for a text exactly if the bytes of the text are the decoded bytes of the path.
pub proof fn paths_stand_for_their_decoded_bytes(path: Seq<char>, text: Seq<char>)
    ensures
        decoded_text(path) == Some(text) <==> encode_utf8(text) == percent_decoded(
            encode_utf8(path),
        ),
{
    encode_utf8_valid_utf8(text);
    encode_utf8_decode_utf8(text);
    if valid_utf8(percent_decoded(encode_utf8(path))) {
        decode_utf8_encode_utf8(percent_decoded(encode_utf8(path)));
    }
}

} // verus!
