//! The header fields that travel between client and backend.

use vstd::prelude::*;
use http::HeaderMap;
use crate::text::same_text;

verus! {

/// The fields that are passed on in neither direction.
pub const SKIP_HEADERS: [&'static str; 3] = ["date", "server", "host"];

/// The number of names up to which a header map always has room for one more.
pub const ROOM: usize = 6553;

/// A header map was asked to hold more names than it can.
#[derive(Debug, Clone, Copy, PartialEq, Eq, Structural)]
pub struct TooManyHeaders;

/// A header field: its name and the bytes of its value.
#[derive(Debug)]
pub struct Field {
    pub name: String,
    pub value: Vec<u8>,
}

impl View for Field {
    type V = (Seq<char>, Seq<u8>);

    open spec fn view(&self) -> (Seq<char>, Seq<u8>) {
        (self.name@, self.value@)
    }
}

/// For each name, the values that it has, in order.
pub type HeaderLists = Map<Seq<char>, Seq<Seq<u8>>>;

#[verifier::external_type_specification]
#[verifier::external_body]
#[verifier::reject_recursive_types(T)]
pub struct ExHeaderMap<T>(http::HeaderMap<T>);

#[verifier::external_type_specification]
#[verifier::external_body]
pub struct ExHeaderValue(http::HeaderValue);

#[verifier::external_type_specification]
#[verifier::external_body]
pub struct ExMaxSizeReached(http::header::MaxSizeReached);

#[verifier::external_type_specification]
#[verifier::external_body]
pub struct ExInvalidHeaderName(http::header::InvalidHeaderName);

#[verifier::external_type_specification]
#[verifier::external_body]
pub struct ExInvalidHeaderValue(http::header::InvalidHeaderValue);

/// What an `http::HeaderMap` holds: the values of each of its names, in order.
pub uninterp spec fn header_lists(map: HeaderMap) -> HeaderLists;

/// A character in lower case, if it is an ASCII letter.
pub open spec fn lower(c: char) -> char {
    if 'A' <= c <= 'Z' {
        (c as u32 + 32) as char
    } else {
        c
    }
}

/// A text with its ASCII letters in lower case.
pub open spec fn lowercase(text: Seq<char>) -> Seq<char> {
    text.map_values(|c: char| lower(c))
}

/// Whether a character may stand in the name of a field.
pub open spec fn is_name_char(c: char) -> bool {
    ||| 'a' <= c <= 'z'
    ||| 'A' <= c <= 'Z'
    ||| '0' <= c <= '9'
    ||| c == '!' || c == '#' || c == '$' || c == '%' || c == '&' || c == '\''
    ||| c == '*' || c == '+' || c == '-' || c == '.' || c == '^' || c == '_'
    ||| c == '`' || c == '|' || c == '~'
}

/// Whether a text is the name of a field.
pub open spec fn is_header_name(text: Seq<char>) -> bool {
    &&& 1 <= text.len() <= 65535
    &&& forall|i: int| 0 <= i < text.len() ==> is_name_char(#[trigger] text[i])
}

/// Whether a byte may stand in the value of a field.
pub open spec fn is_value_byte(byte: u8) -> bool {
    byte >= 32 && byte != 127 || byte == 9
}

/// Whether bytes are the value of a field.
pub open spec fn is_header_value(bytes: Seq<u8>) -> bool {
    forall|i: int| 0 <= i < bytes.len() ==> is_value_byte(#[trigger] bytes[i])
}

/// Whether a name is one of those that are not passed on.
pub open spec fn skipped(name: Seq<char>) -> bool {
    name == "date"@ || name == "server"@ || name == "host"@
}

/// The values of a name; none where the name does not occur.
pub open spec fn values_of(lists: HeaderLists, name: Seq<char>) -> Seq<Seq<u8>> {
    if lists.contains_key(name) {
        lists[name]
    } else {
        Seq::empty()
    }
}

/// The lists with one more value at the end of a name's values.
pub open spec fn appended(lists: HeaderLists, name: Seq<char>, value: Seq<u8>) -> HeaderLists {
    lists.insert(name, values_of(lists, name).push(value))
}

/// The lists that fields make up, taken one after the other.
pub open spec fn grouped(fields: Seq<(Seq<char>, Seq<u8>)>) -> HeaderLists
    decreases fields.len(),
{
    if fields.len() == 0 {
        HeaderLists::empty()
    } else {
        appended(grouped(fields.drop_last()), fields.last().0, fields.last().1)
    }
}

/// `http::HeaderMap::new`: a map without fields.
#[verifier::external_body]
pub(crate) fn no_headers() -> (map: HeaderMap)
    ensures
        header_lists(map) == HeaderLists::empty(),
{
    HeaderMap::new()
}

/// `http::HeaderMap::clone`: the copy holds the same values.
#[verifier::external_body]
fn copy_headers(map: &HeaderMap) -> (copy: HeaderMap)
    ensures
        header_lists(copy) == header_lists(*map),
{
    map.clone()
}

/// `http::HeaderMap::iter`: every value once, with its name, in lower case; the values of a name
/// come in their order. The order among names is left open.
#[verifier::external_body]
fn header_fields(map: &HeaderMap) -> (fields: Vec<Field>)
    ensures
        grouped(fields@.map_values(|field: Field| field@)) == header_lists(*map),
        forall|i: int| 0 <= i < fields@.len() ==> lowercase(#[trigger] fields@[i].name@) == fields@[i].name@,
{
    map.iter()
        .map(|(name, value)| Field {
            name: name.as_str().to_owned(),
            value: value.as_bytes().to_vec(),
        })
        .collect()
}

/// `http::HeaderName::try_from` a text: succeeds exactly on the names of fields, and puts them in
/// lower case.
#[verifier::external_body]
fn parse_header_name(text: &str) -> (result: Result<String, http::header::InvalidHeaderName>)
    ensures
        result is Ok <==> is_header_name(text@),
        result matches Ok(name) ==> name@ == lowercase(text@),
{
    http::HeaderName::try_from(text).map(|name| name.as_str().to_owned())
}

/// `http::HeaderValue::try_from` bytes: succeeds exactly on the values of fields, and keeps them.
#[verifier::external_body]
pub(crate) fn parse_header_value(bytes: &[u8]) -> (result: Result<
    Vec<u8>,
    http::header::InvalidHeaderValue,
>)
    ensures
        result is Ok <==> is_header_value(bytes@),
        result matches Ok(value) ==> value@ == bytes@,
{
    http::HeaderValue::try_from(bytes).map(|value| value.as_bytes().to_vec())
}

/// `http::HeaderMap::try_append`: the value goes to the end of the name's values, and the result
/// says whether the name was there. It fails only beyond `ROOM` names, and then changes nothing.
/// Beyond that number, whether it fails depends on how the names hash.
#[verifier::external_body]
fn append(map: &mut HeaderMap, name: &str, value: &[u8]) -> (result: Result<
    bool,
    http::header::MaxSizeReached,
>)
    requires
        is_header_name(name@),
        is_header_value(value@),
    ensures
        result matches Ok(known) ==> known == header_lists(*old(map)).contains_key(lowercase(name@))
            && header_lists(*final(map)) == appended(
            header_lists(*old(map)),
            lowercase(name@),
            value@,
        ),
        result is Err ==> header_lists(*old(map)).len() > ROOM && header_lists(*final(map))
            == header_lists(*old(map)),
{
    map.try_append(
        http::HeaderName::from_bytes(name.as_bytes()).unwrap(),
        http::HeaderValue::from_bytes(value).unwrap(),
    )
}

/// `http::HeaderMap::insert`: the value becomes the only one of the name.
#[verifier::external_body]
pub(crate) fn insert(map: &mut HeaderMap, name: &str, value: &[u8])
    requires
        is_header_name(name@),
        is_header_value(value@),
        header_lists(*old(map)).len() <= ROOM,
    ensures
        header_lists(*final(map)) == header_lists(*old(map)).insert(lowercase(name@), seq![value@]),
{
    map.insert(
        http::HeaderName::from_bytes(name.as_bytes()).unwrap(),
        http::HeaderValue::from_bytes(value).unwrap(),
    );
}

/// `http::HeaderMap::get`: the first value of a name.
#[verifier::external_body]
pub(crate) fn first_value(map: &HeaderMap, name: &str) -> (value: Option<Vec<u8>>)
    requires
        is_header_name(name@),
    ensures
        match value {
            Some(bytes) => header_lists(*map).contains_key(lowercase(name@)) && bytes@
                == header_lists(*map)[lowercase(name@)][0],
            None => !header_lists(*map).contains_key(lowercase(name@)),
        },
{
    map.get(name).map(|value| value.as_bytes().to_vec())
}

/// `http::HeaderMap::remove`: the name goes, with all its values.
#[verifier::external_body]
fn remove(map: &mut HeaderMap, name: &str)
    requires
        is_header_name(name@),
    ensures
        header_lists(*final(map)) == header_lists(*old(map)).remove(lowercase(name@)),
{
    map.remove(name);
}

/// Whether a name is one of those that are not passed on.
pub fn is_skipped(name: &str) -> (result: bool)
    ensures
        result == skipped(name@),
        result <==> name@ == "date"@ || name@ == "server"@ || name@ == "host"@,
{
    for i in 0..SKIP_HEADERS.len()
        invariant
            forall|j: int| 0 <= j < i ==> name@ != SKIP_HEADERS[j]@,
    {
        if same_text(name, SKIP_HEADERS[i]) {
            return true;
        }
    }
    false
}

/// Whether a field is passed on to the client.
pub open spec fn passes(field: (Seq<char>, Seq<u8>)) -> bool {
    !skipped(field.0) && is_header_name(field.0) && is_header_value(field.1)
}

/// The lists made of the fields that are passed on to the client.
pub open spec fn relayed(fields: Seq<(Seq<char>, Seq<u8>)>) -> HeaderLists
    decreases fields.len(),
{
    if fields.len() == 0 {
        HeaderLists::empty()
    } else {
        let before = relayed(fields.drop_last());
        if passes(fields.last()) {
            appended(before, lowercase(fields.last().0), fields.last().1)
        } else {
            before
        }
    }
}

/// More fields never make for fewer names.
proof fn relayed_grows(fields: Seq<(Seq<char>, Seq<u8>)>, n: int)
    requires
        0 <= n <= fields.len(),
    ensures
        relayed(fields).dom().finite(),
        relayed(fields.take(n)).dom().finite(),
        relayed(fields.take(n)).len() <= relayed(fields).len(),
    decreases fields.len(),
{
    if n == fields.len() {
        assert(fields.take(n) =~= fields);
        if n > 0 {
            relayed_grows(fields.drop_last(), n - 1);
        }
    } else {
        relayed_grows(fields.drop_last(), n);
        assert(fields.drop_last().take(n) =~= fields.take(n));
    }
}

/// Collects the fields that are passed on to the client.
///
/// Fields that are skipped, and fields whose name or value is not valid, are left out.
pub fn relay_fields(fields: &Vec<Field>) -> (result: Result<HeaderMap, TooManyHeaders>)
    ensures
        result matches Ok(map) ==> header_lists(map) == relayed(
            fields@.map_values(|field: Field| field@),
        ),
        result is Err ==> relayed(fields@.map_values(|field: Field| field@)).len() > ROOM,
{
    let mut map = no_headers();
    let ghost all = fields@.map_values(|field: Field| field@);
    for i in 0..fields.len()
        invariant
            all == fields@.map_values(|field: Field| field@),
            header_lists(map) == relayed(all.take(i as int)),
    {
        let field = &fields[i];
        proof {
            assert(all.take(i + 1).drop_last() =~= all.take(i as int));
            assert(all.take(i + 1).last() == field@);
        }
        if !is_skipped(&field.name) {
            if let Ok(name) = parse_header_name(&field.name) {
                if let Ok(value) = parse_header_value(&field.value) {
                    proof {
                        lowercase_keeps_names(field.name@);
                    }
                    if append(&mut map, &name, &value).is_err() {
                        proof {
                            relayed_grows(all, i as int);
                        }
                        return Err(TooManyHeaders);
                    }
                }
            }
        }
    }
    assert(all.take(all.len() as int) =~= all);
    Ok(map)
}

/// The name of a field stays one in lower case, and nothing changes when it is put there twice.
proof fn lowercase_keeps_names(name: Seq<char>)
    ensures
        is_header_name(name) ==> is_header_name(lowercase(name)),
        lowercase(lowercase(name)) == lowercase(name),
{
    assert forall|c: char| #[trigger] lower(lower(c)) == lower(c) by {
    }
    assert(lowercase(lowercase(name)) =~= lowercase(name));
}

/// The values that a field may have, out of a list.
pub open spec fn valid_values(values: Seq<Seq<u8>>) -> Seq<Seq<u8>> {
    values.filter(|value: Seq<u8>| is_header_value(value))
}

/// What passes of the lists to the client: under every name that is valid and not skipped, the
/// valid values, in their order.
pub open spec fn passed(lists: HeaderLists) -> HeaderLists {
    Map::new(
        |name: Seq<char>|
            lists.contains_key(name) && !skipped(name) && is_header_name(name) && valid_values(
                lists[name],
            ).len() > 0,
        |name: Seq<char>| valid_values(lists[name]),
    )
}

/// Collecting the fields that pass is the same as letting the lists pass.
proof fn relayed_is_passed(fields: Seq<(Seq<char>, Seq<u8>)>)
    requires
        forall|i: int| 0 <= i < fields.len() ==> lowercase(#[trigger] fields[i].0) == fields[i].0,
    ensures
        relayed(fields) == passed(grouped(fields)),
    decreases fields.len(),
{
    if fields.len() == 0 {
        assert(relayed(fields) =~= passed(grouped(fields)));
    } else {
        let before = fields.drop_last();
        assert forall|i: int| 0 <= i < before.len() implies lowercase(#[trigger] before[i].0)
            == before[i].0 by {
            assert(lowercase(fields[i].0) == fields[i].0);
        }
        relayed_is_passed(before);
        let (name, value) = fields.last();
        let lists = grouped(before);
        assert(lowercase(fields[fields.len() - 1].0) == name);
        valid_values_push(values_of(lists, name), value);
        assert(valid_values(Seq::empty()).len() == 0) by {
            reveal(Seq::filter);
        }
        let after = grouped(fields);
        let kept = passed(lists);
        assert(after[name] == values_of(lists, name).push(value));
        assert(valid_values(values_of(lists, name)) == values_of(kept, name) || skipped(name)
            || !is_header_name(name)) by {
            if lists.contains_key(name) && valid_values(lists[name]).len() == 0 {
                assert(valid_values(lists[name]) =~= Seq::empty());
            }
            if !lists.contains_key(name) {
                assert(valid_values(values_of(lists, name)) =~= Seq::empty());
            }
        }
        if passes((name, value)) {
            assert(appended(kept, name, value) =~= passed(after));
        } else {
            assert(kept =~= passed(after));
        }
    }
}

/// The valid values of a list that grew by one.
proof fn valid_values_push(values: Seq<Seq<u8>>, value: Seq<u8>)
    ensures
        valid_values(values.push(value)) == if is_header_value(value) {
            valid_values(values).push(value)
        } else {
            valid_values(values)
        },
{
    reveal(Seq::filter);
    assert(values.push(value).drop_last() =~= values);
}

/// Whether fields came through but for `date`, `server` and `host`: none of these is left, and every
/// other valid name with valid values has all of them.
pub open spec fn same_fields(sent: HeaderLists, got: HeaderLists) -> bool {
    &&& !got.contains_key("date"@)
    &&& !got.contains_key("server"@)
    &&& !got.contains_key("host"@)
    &&& forall|name: Seq<char>|
        got.contains_key(name) ==> #[trigger] sent.contains_key(name)
    &&& forall|name: Seq<char>|
        name != "date"@ && name != "server"@ && name != "host"@ && is_header_name(name)
            && #[trigger] sent.contains_key(name) && sent[name].len() > 0 && (forall|i: int|
            0 <= i < sent[name].len() ==> is_header_value(#[trigger] sent[name][i]))
            ==> got.contains_key(name) && got[name] == sent[name]
}

/// What passes are the fields that came, but for those that are held back.
pub proof fn passed_fields_are_the_same(lists: HeaderLists)
    ensures
        same_fields(lists, passed(lists)),
{
    assert forall|name: Seq<char>|
        name != "date"@ && name != "server"@ && name != "host"@ && is_header_name(name)
            && #[trigger] lists.contains_key(name) && lists[name].len() > 0 && (forall|i: int|
            0 <= i < lists[name].len() ==> is_header_value(#[trigger] lists[name][i])) implies passed(
        lists,
    ).contains_key(name) && passed(lists)[name] == lists[name] by {
        valid_values_of_valid(lists[name]);
    }
}

/// The header fields of a backend's answer that are passed on to the client.
pub fn relay_headers(headers: &HeaderMap) -> (result: Result<HeaderMap, TooManyHeaders>)
    ensures
        result matches Ok(map) ==> same_fields(header_lists(*headers), header_lists(map)),
        result matches Ok(map) ==> header_lists(map) == passed(header_lists(*headers)),
        result is Err ==> passed(header_lists(*headers)).len() > ROOM,
{
    let fields = header_fields(headers);
    proof {
        let all = fields@.map_values(|field: Field| field@);
        assert forall|i: int| 0 <= i < all.len() implies lowercase(#[trigger] all[i].0)
            == all[i].0 by {
            assert(lowercase(fields@[i].name@) == fields@[i].name@);
        }
        relayed_is_passed(all);
        passed_fields_are_the_same(header_lists(*headers));
    }
    relay_fields(&fields)
}

/// What of the lists goes to the backend: everything under a name that is not skipped.
pub open spec fn forwarded(lists: HeaderLists) -> HeaderLists {
    lists.remove("date"@).remove("server"@).remove("host"@)
}

/// The header fields of a client's request that are sent to the backend.
pub fn forward_headers(headers: &HeaderMap) -> (result: HeaderMap)
    ensures
        header_lists(result) == forwarded(header_lists(*headers)),
        forall|name: Seq<char>| #[trigger]
            header_lists(result).contains_key(name) <==> header_lists(*headers).contains_key(name)
                && name != "date"@ && name != "server"@ && name != "host"@,
        forall|name: Seq<char>| #[trigger]
            header_lists(result).contains_key(name) ==> header_lists(result)[name] == header_lists(
                *headers,
            )[name],
{
    let mut result = copy_headers(headers);
    proof {
        skip_headers_are_names();
    }
    remove(&mut result, "date");
    remove(&mut result, "server");
    remove(&mut result, "host");
    result
}

/// The skipped names are names of fields, in lower case.
proof fn skip_headers_are_names()
    ensures
        is_header_name("date"@) && lowercase("date"@) == "date"@,
        is_header_name("server"@) && lowercase("server"@) == "server"@,
        is_header_name("host"@) && lowercase("host"@) == "host"@,
{
    reveal_strlit("date");
    reveal_strlit("server");
    reveal_strlit("host");
    assert(lowercase("date"@) =~= "date"@);
    assert(lowercase("server"@) =~= "server"@);
    assert(lowercase("host"@) =~= "host"@);
}

/// The names that are passed on in neither direction are `date`, `server` and `host`. Under every
/// other name, all values go to the backend. Back from it, under every other name that is made of
/// letters, digits and the signs that a name may hold, all values come that hold no control
/// character but the tab; and nothing comes under any other name.
pub proof fn only_skipped_headers_are_held_back(lists: HeaderLists, name: Seq<char>)
    ensures
        name == "date"@ || name == "server"@ || name == "host"@ ==> !forwarded(lists).contains_key(name)
            && !passed(lists).contains_key(name),
        name != "date"@ && name != "server"@ && name != "host"@ ==> {
            &&& forwarded(lists).contains_key(name) == lists.contains_key(name)
            &&& lists.contains_key(name) ==> forwarded(lists)[name] == lists[name]
        },
        name != "date"@ && name != "server"@ && name != "host"@ && 1 <= name.len() <= 65535 && (
        forall|i: int|
            0 <= i < name.len() ==> ('a' <= #[trigger] name[i] <= 'z' || 'A' <= name[i] <= 'Z' || '0'
                <= name[i] <= '9' || "!#$%&'*+-.^_`|~"@.contains(name[i]))) ==> {
            let kept = lists[name].filter(
                |value: Seq<u8>|
                    forall|i: int|
                        0 <= i < value.len() ==> (#[trigger] value[i] >= 32 && value[i] != 127
                            || value[i] == 9),
            );
            &&& passed(lists).contains_key(name) <==> lists.contains_key(name) && kept.len() > 0
            &&& passed(lists).contains_key(name) ==> passed(lists)[name] == kept
        },
        passed(lists).contains_key(name) ==> 1 <= name.len() <= 65535 && (forall|i: int|
            0 <= i < name.len() ==> ('a' <= #[trigger] name[i] <= 'z' || 'A' <= name[i] <= 'Z' || '0'
                <= name[i] <= '9' || "!#$%&'*+-.^_`|~"@.contains(name[i]))),
{
    reveal_strlit("date");
    reveal_strlit("server");
    reveal_strlit("host");
    let signs = "!#$%&'*+-.^_`|~"@;
    reveal_strlit("!#$%&'*+-.^_`|~");
    assert forall|c: char| signs.contains(c) implies #[trigger] is_name_char(c) by {
        let i = choose|i: int| 0 <= i < signs.len() && signs[i] == c;
        assert(signs[i] == c);
    }
    assert forall|c: char| #[trigger] is_name_char(c) implies ('a' <= c <= 'z' || 'A' <= c <= 'Z'
        || '0' <= c <= '9' || signs.contains(c)) by {
        assert(signs[0] == '!' && signs[1] == '#' && signs[2] == '$' && signs[3] == '%' && signs[4]
            == '&' && signs[5] == '\'' && signs[6] == '*' && signs[7] == '+' && signs[8] == '-'
            && signs[9] == '.' && signs[10] == '^' && signs[11] == '_' && signs[12] == '`'
            && signs[13] == '|' && signs[14] == '~');
    }
    let plain = |value: Seq<u8>|
        forall|i: int|
            0 <= i < value.len() ==> (#[trigger] value[i] >= 32 && value[i] != 127 || value[i] == 9);
    assert forall|value: Seq<u8>| #[trigger] plain(value) == is_header_value(value) by {
        if plain(value) {
            assert forall|i: int| 0 <= i < value.len() implies is_value_byte(#[trigger] value[i]) by {
            }
        }
        if is_header_value(value) {
            assert forall|i: int| 0 <= i < value.len() implies (#[trigger] value[i] >= 32 && value[i]
                != 127 || value[i] == 9) by {
                assert(is_value_byte(value[i]));
            }
        }
    }
    assert(plain =~= |value: Seq<u8>| is_header_value(value));
}

/// Fields are taken one by one: one more field under a name that is valid and is not `date`,
/// `server` or `host`, with a valid value, puts its value behind those of its name, in lower case,
/// and touches no other name. Any other field changes nothing.
pub proof fn fields_are_relayed_one_by_one(
    fields: Seq<(Seq<char>, Seq<u8>)>,
    name: Seq<char>,
    value: Seq<u8>,
    other: Seq<char>,
)
    ensures
        relayed(Seq::<(Seq<char>, Seq<u8>)>::empty()).dom() == Set::<Seq<char>>::empty(),
        ({
            let before = relayed(fields);
            let after = relayed(fields.push((name, value)));
            let key = lowercase(name);
            if name != "date"@ && name != "server"@ && name != "host"@ && is_header_name(name)
                && is_header_value(value) {
                &&& after.contains_key(key)
                &&& before.contains_key(key) ==> after[key] == before[key].push(value)
                &&& !before.contains_key(key) ==> after[key] == seq![value]
                &&& other != key ==> {
                    &&& after.contains_key(other) == before.contains_key(other)
                    &&& after.contains_key(other) ==> after[other] == before[other]
                }
            } else {
                after == before
            }
        }),
{
    let all = fields.push((name, value));
    assert(all.drop_last() =~= fields);
    assert(Seq::<Seq<u8>>::empty().push(value) =~= seq![value]);
}

/// Valid values are all kept.
proof fn valid_values_of_valid(values: Seq<Seq<u8>>)
    requires
        forall|i: int| 0 <= i < values.len() ==> is_header_value(#[trigger] values[i]),
    ensures
        valid_values(values) == values,
    decreases values.len(),
{
    reveal(Seq::filter);
    if values.len() > 0 {
        let before = values.drop_last();
        assert forall|i: int| 0 <= i < before.len() implies is_header_value(
            #[trigger] before[i],
        ) by {
            assert(is_header_value(values[i]));
        }
        valid_values_of_valid(before);
        assert(is_header_value(values[values.len() - 1]));
        assert(before.push(values.last()) =~= values);
    }
    assert(valid_values(values) =~= values);
}

/// What passed once passes again unchanged.
pub proof fn relaying_again_changes_nothing(lists: HeaderLists)
    ensures
        passed(passed(lists)) == passed(lists),
        forwarded(forwarded(lists)) == forwarded(lists),
{
    assert forall|name: Seq<char>| #[trigger] passed(lists).contains_key(name) implies valid_values(
        passed(lists)[name],
    ) == passed(lists)[name] by {
        valid_values_are_valid(lists[name]);
        valid_values_of_valid(valid_values(lists[name]));
    }
    assert(passed(passed(lists)) =~= passed(lists));
    assert(forwarded(forwarded(lists)) =~= forwarded(lists));
}

/// The valid values of a list are valid.
proof fn valid_values_are_valid(values: Seq<Seq<u8>>)
    ensures
        forall|i: int|
            0 <= i < valid_values(values).len() ==> is_header_value(
                #[trigger] valid_values(values)[i],
            ),
    decreases values.len(),
{
    reveal(Seq::filter);
    if values.len() > 0 {
        valid_values_are_valid(values.drop_last());
    }
}

} // verus!
