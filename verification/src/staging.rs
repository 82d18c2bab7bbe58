//! The files next to a cache file that a download passes through.
//!
//! A body is written to a temporary file in the directory of the cache file and renamed from
//! there, so that no reader sees half of it.

use vstd::prelude::*;
use vstd::string::*;
use crate::paths::is_open;
use crate::text::same_text;

verus! {

/// The last component of a path with the place where it starts. Empty segments and `.` are no
/// components, but for a `.` at the very beginning.
pub open spec fn last_component(path: Seq<char>) -> Option<(int, Seq<char>)>
    decreases path.len(),
{
    let last = crate::paths::segments(path).last();
    let start = path.len() - last.len();
    if last.len() > 0 && (last != crate::paths::here() || start == 0) {
        Some((start, last))
    } else if start <= 0 {
        None
    } else {
        last_component(path.take(start - 1))
    }
}

/// The path with its last component replaced by another name. Where that component is no name of
/// an entry, the new name goes below the path.
pub open spec fn renamed(path: Seq<char>, name: Seq<char>) -> Seq<char> {
    match last_component(path) {
        Some((start, last)) => if last != crate::paths::here() && last != crate::paths::above() {
            path.take(start) + name
        } else {
            crate::paths::opened(path) + name
        },
        None => crate::paths::opened(path) + name,
    }
}

/// Whether a place in the path is that of the component, with its kind.
spec fn located(found: Option<(usize, bool)>, component: Option<(int, Seq<char>)>) -> bool {
    match component {
        Some((start, last)) => found matches Some((at, entry)) && at == start && entry == (last
            != crate::paths::here() && last != crate::paths::above()),
        None => found is None,
    }
}

/// The last component before the segment that starts at a place.
spec fn component_before(path: Seq<char>, start: int) -> Option<(int, Seq<char>)> {
    if start == 0 {
        None
    } else {
        last_component(path.take(start - 1))
    }
}

/// Finds the last component of a path: where it starts, and whether it is the name of an entry.
fn find_last_component(path: &str) -> (found: Option<(usize, bool)>)
    ensures
        located(found, last_component(path@)),
        found matches Some((start, _)) ==> start <= path@.len(),
{
    let total = path.unicode_len();
    let mut closed: Option<(usize, bool)> = None;
    let mut segment = String::new();
    let mut start: usize = 0;
    let mut seen: usize = 0;
    for c in it: path.chars()
        invariant
            it.seq() == path@,
            path@.len() == total,
            seen == it.index(),
            segment@ == crate::paths::segments(path@.take(seen as int)).last(),
            start + segment@.len() == seen,
            located(closed, component_before(path@, start as int)),
            closed matches Some((at, _)) ==> at <= start,
    {
        let ghost text = path@.take(seen as int);
        let ghost next = path@.take(seen + 1);
        proof {
            crate::paths::segments_hold_no_slash(text);
            assert(next.drop_last() =~= text);
            assert(start > 0 ==> text.take(start - 1) =~= path@.take(start - 1));
        }
        if c == '/' {
            closed = later_component(closed, start, &segment);
            assert(located(closed, last_component(text)));
            segment = String::new();
            start = seen + 1;
        } else {
            segment.push(c);
        }
        seen = seen + 1;
    }
    assert(path@.take(seen as int) =~= path@);
    later_component(closed, start, &segment)
}

/// The segment as a component where it is one, else the component found before it.
fn later_component(found: Option<(usize, bool)>, start: usize, segment: &str) -> (later: Option<
    (usize, bool),
>)
    ensures
        later == if segment@.len() > 0 && (segment@ != crate::paths::here() || start == 0) {
            Some((start, segment@ != crate::paths::here() && segment@ != crate::paths::above()))
        } else {
            found
        },
{
    proof {
        reveal_strlit(".");
        reveal_strlit("..");
        assert("."@ =~= crate::paths::here());
        assert(".."@ =~= crate::paths::above());
    }
    let dot = same_text(segment, ".");
    if !segment.is_empty() && (!dot || start == 0) {
        Some((start, !dot && !same_text(segment, "..")))
    } else {
        found
    }
}

/// The directory that a path lies in, with the slash that closes it; none for the root directory
/// and for an empty path.
pub fn parent(path: &str) -> (directory: Option<String>)
    ensures
        match directory {
            Some(text) => last_component(path@) matches Some((start, _)) && text@ == path@.take(
                start,
            ),
            None => last_component(path@) is None,
        },
{
    match find_last_component(path) {
        Some((start, _)) => Some(path.substring_char(0, start).to_owned()),
        None => None,
    }
}

/// The path with its last component replaced by a name.
pub fn with_file_name(path: &str, name: &str) -> (result: String)
    ensures
        result@ == renamed(path@, name@),
{
    match find_last_component(path) {
        Some((start, true)) => path.substring_char(0, start).to_owned().concat(name),
        _ => {
            let mut result = path.to_owned();
            if !is_open(path) {
                result.push('/');
            }
            result.append(name);
            result
        },
    }
}

/// The form of a random identifier: hexadecimal digits in five groups that hyphens separate.
pub open spec fn is_identifier(text: Seq<char>) -> bool {
    &&& text.len() == 36
    &&& forall|i: int|
        0 <= i < 36 ==> if i == 8 || i == 13 || i == 18 || i == 23 {
            #[trigger] text[i] == '-'
        } else {
            '0' <= text[i] <= '9' || 'a' <= text[i] <= 'f'
        }
}

/// `uuid::Uuid::new_v4`, written in its hyphenated form. Which identifier comes back is left to
/// chance; every one has that form.
#[verifier::external_body]
fn random_identifier() -> (text: String)
    ensures
        is_identifier(text@),
{
    uuid::Uuid::new_v4().to_string()
}

/// The name of the temporary file that belongs to an identifier.
pub open spec fn temporary_text(id: Seq<char>) -> Seq<char> {
    seq!['.'] + id + ".in-progress"@
}

/// The name of the temporary file that belongs to an identifier.
pub fn temporary_name(id: &str) -> (name: String)
    ensures
        name@ == temporary_text(id@),
        name@ == seq!['.'] + id@ + ".in-progress"@,
{
    let mut name = String::new();
    name.push('.');
    name.append(id);
    name.append(".in-progress");
    assert(name@ =~= temporary_text(id@));
    name
}

/// A temporary name under a random identifier.
pub fn fresh_temporary_name() -> (name: String)
    ensures
        exists|id: Seq<char>| is_identifier(id) && name@ == #[trigger] temporary_text(id),
{
    let id = random_identifier();
    temporary_name(&id)
}

/// Temporary names are a dot, the identifier and `.in-progress`. They name an entry of the directory,
/// and different identifiers give different names.
pub proof fn temporary_names_are_distinct(left: Seq<char>, right: Seq<char>)
    requires
        is_identifier(left),
        is_identifier(right),
    ensures
        crate::paths::plain(temporary_text(left)),
        temporary_text(left).len() == 49,
        temporary_text(left)[0] == '.',
        temporary_text(left).subrange(1, 37) == left,
        temporary_text(left).skip(37) == ".in-progress"@,
        !temporary_text(left).contains('/'),
        temporary_text(left) == temporary_text(right) ==> left == right,
{
    reveal_strlit(".in-progress");
    let name = temporary_text(left);
    assert(name[1] == left[0]);
    assert(name.subrange(1, 37) =~= left);
    assert(name.skip(37) =~= ".in-progress"@);
    if name.contains('/') {
        let i = choose|i: int| 0 <= i < name.len() && name[i] == '/';
        if 1 <= i < 37 {
            assert(left[i - 1] == '/');
        }
    }
    if name == temporary_text(right) {
        assert forall|i: int| 0 <= i < 36 implies left[i] == right[i] by {
            assert(name[i + 1] == left[i]);
            assert(temporary_text(right)[i + 1] == right[i]);
        }
        assert(left =~= right);
    }
}

/// The temporary file lies beside the cache file: for a cache file below the root, the directory
/// it lies in is the root extended by all but its last segment, and the temporary file is that
/// directory extended by its name.
pub proof fn temporary_files_lie_beside_the_cache_file(
    root: Seq<char>,
    path: Seq<char>,
    name: Seq<char>,
)
    requires
        !crate::paths::climbs(path),
        crate::paths::parts(path).len() > 0,
    ensures
        ({
            let parts = crate::paths::parts(path);
            let cached = crate::paths::joined(root, parts);
            let directory = crate::paths::opened(crate::paths::joined(root, parts.drop_last()));
            &&& last_component(cached) == Some((directory.len() as int, parts.last()))
            &&& cached.take(directory.len() as int) == directory
            &&& renamed(cached, name) == directory + name
            &&& renamed(cached, name) == crate::paths::joined(root, parts.drop_last().push(name))
        }),
{
    let parts = crate::paths::parts(path);
    let last = parts.last();
    let directory = crate::paths::opened(crate::paths::joined(root, parts.drop_last()));
    let cached = directory + last;
    crate::paths::parts_are_plain(path);
    assert(crate::paths::plain(parts[parts.len() - 1]));
    crate::paths::segments_without_slash(last);
    if directory.len() > 0 {
        assert(directory.drop_last().push('/') =~= directory);
        crate::paths::segments_after_slash(directory.drop_last(), last);
    } else {
        assert(cached =~= last);
    }
    assert(cached.take(directory.len() as int) =~= directory);
    assert(parts.drop_last().push(name).drop_last() =~= parts.drop_last());
}

/// The last segment of a path, where it is a name and not `.` or `..`, gives way to another name, and
/// what stands before it is the directory. Slashes behind it, with or without a `.`, do not matter.
/// Behind a last segment `..` the other name is added, and that segment stays.
pub proof fn last_segments_give_way(directory: Seq<char>, name: Seq<char>, other: Seq<char>)
    requires
        name.len() > 0,
        !name.contains('/'),
        name != seq!['.'],
    ensures
        ({
            let path = directory.push('/') + name;
            &&& last_component(path) == Some((directory.len() as int + 1, name))
            &&& last_component(path.push('/')) == last_component(path)
            &&& last_component(path.push('/').push('.')) == last_component(path)
            &&& name != seq!['.', '.'] ==> renamed(path, other) == directory.push('/') + other
                && renamed(path.push('/'), other) == directory.push('/') + other && renamed(
                path.push('/').push('.'),
                other,
            ) == directory.push('/') + other
            &&& name == seq!['.', '.'] ==> renamed(path, other) == path.push('/') + other
        }),
        last_component(name) == Some((0int, name)),
        name != seq!['.', '.'] ==> renamed(name, other) == other,
        name == seq!['.', '.'] ==> renamed(name, other) == name.push('/') + other,
{
    let path = directory.push('/') + name;
    let none = Seq::<char>::empty();
    let dot = seq!['.'];
    crate::paths::segments_without_slash(name);
    crate::paths::segments_after_slash(directory, name);
    crate::paths::segments_without_slash(none);
    crate::paths::segments_without_slash(dot);
    crate::paths::segments_after_slash(path, none);
    crate::paths::segments_after_slash(path, dot);
    assert(path.push('/') + none =~= path.push('/'));
    assert(path.push('/') + dot =~= path.push('/').push('.'));
    assert(path.push('/').take(path.len() as int) =~= path);
    assert(path.push('/').push('.').take(path.len() as int) =~= path);
    assert(name.contains(name.last()));
    assert(path.last() == name.last());
    assert(name.take(0) + other =~= other);
    let start = (directory.len() + 1) as int;
    assert(path.take(start) =~= directory.push('/'));
    assert(path.push('/').take(start) =~= directory.push('/'));
    assert(path.push('/').push('.').take(start) =~= directory.push('/'));
}

/// An empty path and the root directory have no last component, and slashes and `.` alone make none.
pub proof fn roots_have_no_last_component(path: Seq<char>)
    ensures
        last_component(Seq::<char>::empty()) is None,
        last_component(seq!['/']) is None,
        path.len() > 0 && last_component(path) is None ==> last_component(path.push('/')) is None
            && last_component(path.push('/').push('.')) is None,
{
    let none = Seq::<char>::empty();
    let dot = seq!['.'];
    crate::paths::segments_without_slash(none);
    crate::paths::segments_without_slash(dot);
    crate::paths::segments_after_slash(none, none);
    crate::paths::segments_after_slash(path, none);
    crate::paths::segments_after_slash(path, dot);
    assert(none.push('/') + none =~= seq!['/']);
    assert(seq!['/'].take(0) =~= none);
    assert(path.push('/') + none =~= path.push('/'));
    assert(path.push('/') + dot =~= path.push('/').push('.'));
    assert(path.push('/').take(path.len() as int) =~= path);
    assert(path.push('/').push('.').take(path.len() as int) =~= path);
}

} // verus!
