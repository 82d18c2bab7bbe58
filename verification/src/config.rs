//! The settings of the proxy.

use vstd::prelude::*;
use vstd::string::*;
use vstd::utf8::*;
use crate::text::{decimal, same_text};

verus! {

/// The pattern of the paths that are cached, unless another is set: those of common web assets and
/// archives.
pub const DEFAULT_REGEX: &'static str =
    r"\.(css|gif|html|ico|jpeg|jpg|js|png|svg|webp|woff|woff2|gz|tgz|zst)$";

/// The filter for log messages: with or without those for debugging.
pub fn log_filter(debug: bool) -> (filter: &'static str)
    ensures
        filter@ == if debug {
            "info,fs_caching_server=debug"@
        } else {
            "info"@
        },
{
    if debug {
        "info,fs_caching_server=debug"
    } else {
        "info"
    }
}

/// The address to listen on, as text: the host, a colon and the port.
pub open spec fn address_text(host: Seq<char>, port: nat) -> Seq<char> {
    host.push(':') + crate::text::decimal_text(port)
}

/// An address starts with its host, goes on with a colon, and ends in digits that give its port.
pub proof fn addresses_hold_host_and_port(host: Seq<char>, port: nat)
    ensures
        ({
            let address = address_text(host, port);
            let digits = address.skip(host.len() as int + 1);
            &&& address.len() > host.len() + 1
            &&& address.take(host.len() as int) == host
            &&& address[host.len() as int] == ':'
            &&& crate::text::decimal_value(digits) == port
            &&& forall|i: int| 0 <= i < digits.len() ==> '0' <= #[trigger] digits[i] <= '9'
            &&& digits[0] == '0' ==> port == 0 && digits.len() == 1
        }),
{
    let address = address_text(host, port);
    crate::text::decimal_text_is_faithful(port);
    assert(address.skip(host.len() as int + 1) =~= crate::text::decimal_text(port));
    assert(address.take(host.len() as int) =~= host);
}

/// The address to listen on, as text: the host, a colon and the port.
pub fn listen_address(host: &str, port: u16) -> (address: String)
    ensures
        address@ == address_text(host@, port as nat),
        address@ == host@ + seq![':'] + crate::text::decimal_text(port as nat),
{
    let mut address = host.to_owned();
    address.push(':');
    address.append(&decimal(port as u128));
    assert(address@ =~= host@ + seq![':'] + crate::text::decimal_text(port as nat));
    address
}

/// What is read of a URL: its text in normal form, its scheme, its path, its query and its fragment.
#[derive(Debug)]
pub struct Location {
    pub text: String,
    pub scheme: String,
    pub path: String,
    pub query: Option<String>,
    pub fragment: Option<String>,
}

/// A URL taken apart: its text in normal form, its scheme, its path, its query and its fragment.
pub type UrlParts = (Seq<char>, Seq<char>, Seq<char>, Option<Seq<char>>, Option<Seq<char>>);

impl View for Location {
    type V = UrlParts;

    open spec fn view(&self) -> UrlParts {
        let query = match self.query {
            Some(query) => Some(query@),
            None => None,
        };
        let fragment = match self.fragment {
            Some(fragment) => Some(fragment@),
            None => None,
        };
        (self.text@, self.scheme@, self.path@, query, fragment)
    }
}

/// What `reqwest::Url` reads in a text: the parts of the URL, or the message that says why the text
/// is none.
pub uninterp spec fn parsed_url(text: Seq<char>) -> Result<UrlParts, Seq<char>>;

/// `reqwest::Url::parse`, with the URL taken apart.
#[verifier::external_body]
fn parse_url(text: &str) -> (result: Result<Location, String>)
    ensures
        match result {
            Ok(location) => parsed_url(text@) == Ok::<_, Seq<char>>(location@),
            Err(message) => parsed_url(text@) == Err::<UrlParts, _>(message@),
        },
{
    match reqwest::Url::parse(text) {
        Ok(url) => Ok(Location {
            text: url.as_str().to_owned(),
            scheme: url.scheme().to_owned(),
            path: url.path().to_owned(),
            query: url.query().map(str::to_owned),
            fragment: url.fragment().map(str::to_owned),
        }),
        Err(error) => Err(error.to_string()),
    }
}

/// An optional text as characters.
pub open spec fn optional_text(text: Option<&str>) -> Option<Seq<char>> {
    match text {
        Some(text) => Some(text@),
        None => None,
    }
}

/// The number of bytes of a text in UTF-8.
pub open spec fn byte_len(text: Seq<char>) -> nat {
    encode_utf8(text).len()
}

/// The number of bytes that a byte of a path, or of a query, takes in a URL: none for a tab or a line
/// break, one for a byte that stands as it is, three for one that is escaped.
pub open spec fn written_byte_len(byte: u8, in_query: bool) -> nat {
    if byte == 9 || byte == 10 || byte == 13 {
        0
    } else if byte < 33 || byte > 126 || byte == 34 || byte == 35 || byte == 60 || byte == 62 {
        3
    } else if in_query && byte == 39 {
        3
    } else if !in_query && (byte == 63 || byte == 96 || byte == 123 || byte == 125) {
        3
    } else {
        1
    }
}

/// The number of bytes that the bytes of a path, or of a query, take in a URL.
pub open spec fn written_len(bytes: Seq<u8>, in_query: bool) -> nat
    decreases bytes.len(),
{
    if bytes.len() == 0 {
        0
    } else {
        written_len(bytes.drop_last(), in_query) + written_byte_len(bytes.last(), in_query)
    }
}

/// The number of bytes that a path, or a query, takes in a URL.
pub fn written_size(text: &str, in_query: bool) -> (size: u128)
    ensures
        size == written_len(encode_utf8(text@), in_query),
        size <= 3 * usize::MAX,
{
    let bytes = text.as_bytes();
    let mut size: u128 = 0;
    for i in 0..bytes.len()
        invariant
            size == written_len(bytes@.take(i as int), in_query),
            size <= 3 * i,
    {
        assert(bytes@.take(i + 1).drop_last() =~= bytes@.take(i as int));
        let b = bytes[i];
        let step: u128 = if b == 9 || b == 10 || b == 13 {
            0
        } else if b < 33 || b > 126 || b == 34 || b == 35 || b == 60 || b == 62 {
            3
        } else if in_query && b == 39 {
            3
        } else if !in_query && (b == 63 || b == 96 || b == 123 || b == 125) {
            3
        } else {
            1
        };
        size = size + step;
    }
    assert(bytes@.take(bytes@.len() as int) =~= bytes@);
    size
}

/// The number of bytes of a text in UTF-8.
fn byte_size(text: &str) -> (size: i128)
    ensures
        size == byte_len(text@),
        size <= usize::MAX,
{
    text.as_bytes().len() as i128
}

/// The number of bytes that a query or a fragment takes at the end of a URL, with the character that
/// starts it.
pub open spec fn tail_len(part: Option<Seq<char>>) -> nat {
    match part {
        Some(part) => 1 + byte_len(part),
        None => 0,
    }
}

/// The number of bytes that a query or a fragment takes at the end of a URL.
fn tail_size(part: &Option<String>) -> (size: i128)
    ensures
        size == tail_len(match part {
            Some(part) => Some(part@),
            None => None,
        }),
        size <= usize::MAX + 1,
{
    match part {
        Some(part) => 1 + byte_size(part),
        None => 0,
    }
}

/// Where the path of a URL ends.
pub open spec fn path_end(url: UrlParts) -> int {
    byte_len(url.0) - tail_len(url.3) - tail_len(url.4)
}

/// Where the path of a URL ends.
fn path_end_of(location: &Location) -> (end: i128)
    ensures
        end == path_end(location@),
        -2 * (usize::MAX + 1) <= end <= usize::MAX,
{
    byte_size(&location.text) - tail_size(&location.query) - tail_size(&location.fragment)
}

/// Where another path ends in a URL: it takes the place of the old one, with a slash before it
/// unless it starts with one.
pub open spec fn new_path_end(url: UrlParts, path: Seq<char>) -> int {
    path_end(url) - byte_len(url.2) + written_len(encode_utf8(path), false) + if path.len() > 0
        && path[0] == '/' {
        0int
    } else {
        1int
    }
}

/// Whether 32 bits count the places in a URL when its path is replaced: where the path ends, and
/// where the fragment starts, if there is one.
pub open spec fn takes_path(url: UrlParts, path: Seq<char>) -> bool {
    &&& path_end(url) <= u32::MAX
    &&& new_path_end(url, path) <= u32::MAX
    &&& url.4 is Some ==> new_path_end(url, path) + tail_len(url.3) <= u32::MAX
}

/// Whether 32 bits count the places in a URL when its path is replaced.
fn has_room_for_path(location: &Location, path: &str) -> (result: bool)
    ensures
        result == takes_path(location@, path@),
{
    let limit: i128 = u32::MAX as i128;
    let end = path_end_of(location);
    let slash: i128 = if path.unicode_len() > 0 && path.get_char(0) == '/' {
        0
    } else {
        1
    };
    let new_end = end - byte_size(&location.path) + written_size(path, false) as i128 + slash;
    end <= limit && new_end <= limit && (location.fragment.is_none() || new_end + tail_size(
        &location.query,
    ) <= limit)
}

/// Whether 32 bits count the places in a URL when its query is replaced: where the path ends, and
/// where the fragment starts, if there is one.
pub open spec fn takes_query(url: UrlParts, query: Option<Seq<char>>) -> bool {
    &&& path_end(url) <= u32::MAX
    &&& url.4 is Some ==> path_end(url) + match query {
        Some(query) => 1 + written_len(encode_utf8(query), true),
        None => 0,
    } <= u32::MAX
}

/// Whether 32 bits count the places in a URL when its query is replaced.
fn has_room_for_query(location: &Location, query: Option<&str>) -> (result: bool)
    ensures
        result == takes_query(location@, optional_text(query)),
{
    let limit: i128 = u32::MAX as i128;
    let end = path_end_of(location);
    let added: i128 = match query {
        Some(query) => 1 + written_size(query, true) as i128,
        None => 0,
    };
    end <= limit && (location.fragment.is_none() || end + added <= limit)
}

/// Whether a URL taken apart is what its own text is read as, under a scheme by which a backend can
/// be reached.
pub open spec fn is_normal(url: UrlParts) -> bool {
    parsed_url(url.0) == Ok::<_, Seq<char>>(url) && is_supported(url.1)
}

/// The text of a URL after its path was replaced.
pub uninterp spec fn url_with_path(base: Seq<char>, path: Seq<char>) -> Seq<char>;

/// `reqwest::Url::set_path`, on the URL that a text stands for, with the outcome taken apart. It
/// panics where 32 bits do not count the end of the path, old or new, or the start of the fragment
/// behind it. What it leaves is again a URL in normal form, with the scheme that it had: the text of
/// a URL is read as that URL.
#[verifier::external_body]
fn set_path(base: &str, path: &str) -> (location: Location)
    requires
        parsed_url(base@) is Ok,
        is_supported(parsed_url(base@)->Ok_0.1),
        takes_path(parsed_url(base@)->Ok_0, path@),
    ensures
        location.text@ == url_with_path(base@, path@),
        is_normal(location@),
{
    let mut url = reqwest::Url::parse(base).unwrap();
    url.set_path(path);
    Location {
        text: url.as_str().to_owned(),
        scheme: url.scheme().to_owned(),
        path: url.path().to_owned(),
        query: url.query().map(str::to_owned),
        fragment: url.fragment().map(str::to_owned),
    }
}

/// The text of a URL after its query was replaced.
pub uninterp spec fn url_with_query(base: Seq<char>, query: Option<Seq<char>>) -> Seq<char>;

/// `reqwest::Url::set_query`, on the URL that a text in normal form stands for. It panics where 32
/// bits do not count the end of the path, or the start of the fragment behind the new query.
#[verifier::external_body]
fn set_query(base: &str, query: Option<&str>) -> (url: String)
    requires
        parsed_url(base@) is Ok,
        is_normal(parsed_url(base@)->Ok_0),
        takes_query(parsed_url(base@)->Ok_0, optional_text(query)),
    ensures
        url@ == url_with_query(base@, optional_text(query)),
{
    let mut url = reqwest::Url::parse(base).unwrap();
    url.set_query(query);
    url.into()
}

#[verifier::external_type_specification]
#[verifier::external_body]
pub struct ExRegexError(regex::Error);

/// Whether a text is a regular expression of the `regex` crate, within its default limits.
pub uninterp spec fn is_regex(pattern: Seq<char>) -> bool;

/// `regex::Regex::new`: succeeds exactly on regular expressions.
#[verifier::external_body]
fn check_regex(pattern: &str) -> (result: Result<(), regex::Error>)
    ensures
        result is Ok <==> is_regex(pattern@),
{
    regex::Regex::new(pattern).map(|_regex| ())
}

/// Whether a regular expression matches somewhere in a text.
pub uninterp spec fn regex_matches(pattern: Seq<char>, text: Seq<char>) -> bool;

/// Whether a text is made of ASCII letters and digits, at least one.
pub open spec fn is_word(text: Seq<char>) -> bool {
    &&& text.len() > 0
    &&& forall|i: int|
        0 <= i < text.len() ==> 'a' <= #[trigger] text[i] <= 'z' || 'A' <= text[i] <= 'Z' || '0'
            <= text[i] <= '9'
}

/// Words with a bar between any two.
pub open spec fn alternatives(words: Seq<Seq<char>>) -> Seq<char>
    decreases words.len(),
{
    if words.len() == 0 {
        Seq::empty()
    } else if words.len() == 1 {
        words[0]
    } else {
        alternatives(words.drop_last()).push('|') + words.last()
    }
}

/// The regular expression for texts that end in a dot and one of the words.
pub open spec fn ending_pattern(words: Seq<Seq<char>>) -> Seq<char> {
    seq!['\\', '.', '('] + alternatives(words) + seq![')', '$']
}

/// Whether a text ends in a dot and a word.
pub open spec fn ends_with(text: Seq<char>, word: Seq<char>) -> bool {
    &&& text.len() > word.len()
    &&& text[text.len() - word.len() - 1] == '.'
    &&& text.skip(text.len() - word.len()) == word
}

/// Whether a text ends in a dot and one of the words.
pub open spec fn ends_in_one(text: Seq<char>, words: Seq<Seq<char>>) -> bool {
    exists|i: int| 0 <= i < words.len() && ends_with(text, #[trigger] words[i])
}

/// `regex::Regex::is_match`, for the regular expression that a text stands for. By the syntax of
/// regular expressions, a dot and a group of words before the end of the text match exactly the
/// texts that end in a dot and one of these words.
#[verifier::external_body]
fn is_match(pattern: &str, text: &str) -> (result: bool)
    requires
        is_regex(pattern@),
    ensures
        result == regex_matches(pattern@, text@),
        forall|words: Seq<Seq<char>>|
            words.len() > 0 && (forall|i: int| 0 <= i < words.len() ==> is_word(#[trigger] words[i]))
                && pattern@ == #[trigger] ending_pattern(words) ==> result == ends_in_one(
                text@,
                words,
            ),
{
    regex::Regex::new(pattern).unwrap().is_match(text)
}

/// The endings of common web assets and archives.
pub open spec fn default_endings() -> Seq<Seq<char>> {
    seq![
        "css"@,
        "gif"@,
        "html"@,
        "ico"@,
        "jpeg"@,
        "jpg"@,
        "js"@,
        "png"@,
        "svg"@,
        "webp"@,
        "woff"@,
        "woff2"@,
        "gz"@,
        "tgz"@,
        "zst"@,
    ]
}

/// The default pattern is the one for those endings.
proof fn default_regex_is_for_endings()
    ensures
        DEFAULT_REGEX@ == ending_pattern(default_endings()),
        forall|i: int| 0 <= i < default_endings().len() ==> is_word(#[trigger] default_endings()[i]),
{
    reveal_strlit(r"\.(css|gif|html|ico|jpeg|jpg|js|png|svg|webp|woff|woff2|gz|tgz|zst)$");
    reveal_strlit("css");
    reveal_strlit("gif");
    reveal_strlit("html");
    reveal_strlit("ico");
    reveal_strlit("jpeg");
    reveal_strlit("jpg");
    reveal_strlit("js");
    reveal_strlit("png");
    reveal_strlit("svg");
    reveal_strlit("webp");
    reveal_strlit("woff");
    reveal_strlit("woff2");
    reveal_strlit("gz");
    reveal_strlit("tgz");
    reveal_strlit("zst");
    let words = default_endings();
    assert forall|n: int| 1 < n <= words.len() implies #[trigger] alternatives(words.take(n))
        == alternatives(words.take(n - 1)).push('|') + words[n - 1] by {
        assert(words.take(n).drop_last() =~= words.take(n - 1));
    }
    assert(alternatives(words.take(1)) == "css"@);
    assert(words.take(15) =~= words);
    assert(alternatives(words.take(2)).len() == 7);
    assert(alternatives(words.take(3)).len() == 12);
    assert(alternatives(words.take(4)).len() == 16);
    assert(alternatives(words.take(5)).len() == 21);
    assert(alternatives(words.take(6)).len() == 25);
    assert(alternatives(words.take(7)).len() == 28);
    assert(alternatives(words.take(8)).len() == 32);
    assert(alternatives(words.take(9)).len() == 36);
    assert(alternatives(words.take(10)).len() == 41);
    assert(alternatives(words.take(11)).len() == 46);
    assert(alternatives(words.take(12)).len() == 52);
    assert(alternatives(words.take(13)).len() == 55);
    assert(alternatives(words.take(14)).len() == 59);
    assert(alternatives(words.take(15)).len() == 63);
    assert(DEFAULT_REGEX@ =~= ending_pattern(words));
}

/// Why settings cannot be used.
#[derive(Debug)]
pub enum ConfigError {
    /// The backend URL is invalid, for the reason given.
    InvalidUrl(String),
    /// The backend URL does not use `http` or `https`.
    UnsupportedScheme,
    /// The pattern is no regular expression.
    InvalidRegex(regex::Error),
}

/// Whether a backend can be reached under a scheme.
pub open spec fn is_supported(scheme: Seq<char>) -> bool {
    scheme == "http"@ || scheme == "https"@
}

/// Settings that can be used.
#[derive(Debug)]
pub struct RuntimeConfig {
    cache_dir: String,
    url: String,
    location: Location,
    pattern: String,
}

impl RuntimeConfig {
    /// The directory of the cache.
    pub closed spec fn root(self) -> Seq<char> {
        self.cache_dir@
    }

    /// The URL of the backend, as it was set.
    pub closed spec fn backend(self) -> Seq<char> {
        self.url@
    }

    /// The pattern of the paths that are cached.
    pub closed spec fn matcher(self) -> Seq<char> {
        self.pattern@
    }

    /// The path at the backend for the path of a request.
    pub open spec fn target_path(self, path: Seq<char>) -> Seq<char> {
        target_path(parsed_url(self.backend())->Ok_0.2, path)
    }

    /// Whether 32 bits count the places in the URL at the backend.
    pub open spec fn reaches(self, path: Seq<char>, query: Option<Seq<char>>) -> bool {
        &&& takes_path(parsed_url(self.backend())->Ok_0, self.target_path(path))
        &&& takes_query(
            parsed_url(url_with_path(self.backend(), self.target_path(path)))->Ok_0,
            query,
        )
    }

    /// The URL at the backend for the path and the query of a request: the path is set first, then
    /// the query.
    pub open spec fn target(self, path: Seq<char>, query: Option<Seq<char>>) -> Seq<char> {
        url_with_query(url_with_path(self.backend(), self.target_path(path)), query)
    }

    #[verifier::type_invariant]
    spec fn is_usable(self) -> bool {
        &&& parsed_url(self.url@) == Ok::<_, Seq<char>>(self.location@)
        &&& is_supported(self.location.scheme@)
        &&& is_regex(self.pattern@)
    }

    /// Whether an outcome is that of putting settings together. The URL is looked at first.
    pub open spec fn is_outcome(
        cache_dir: Seq<char>,
        url: Seq<char>,
        regex: Seq<char>,
        result: Result<RuntimeConfig, ConfigError>,
    ) -> bool {
        match parsed_url(url) {
            Err(reason) => result matches Err(ConfigError::InvalidUrl(message)) && message@ == reason,
            Ok((_, scheme, ..)) => if !is_supported(scheme) {
                result matches Err(ConfigError::UnsupportedScheme)
            } else if !is_regex(regex) {
                result matches Err(ConfigError::InvalidRegex(_))
            } else {
                result matches Ok(config) && config.root() == cache_dir && config.backend() == url
                    && config.matcher() == regex
            },
        }
    }

    /// Puts settings together.
    pub fn new(cache_dir: &str, url: &str, regex: &str) -> (result: Result<
        RuntimeConfig,
        ConfigError,
    >)
        ensures
            RuntimeConfig::is_outcome(cache_dir@, url@, regex@, result),
            match parsed_url(url@) {
                Err(reason) => result matches Err(ConfigError::InvalidUrl(message)) && message@
                    == reason,
                Ok((_, scheme, ..)) => if !is_supported(scheme) {
                    result matches Err(ConfigError::UnsupportedScheme)
                } else if !is_regex(regex@) {
                    result matches Err(ConfigError::InvalidRegex(_))
                } else {
                    result matches Ok(config) && config.root() == cache_dir@ && config.backend()
                        == url@ && config.matcher() == regex@
                },
            },
            result is Ok <==> (parsed_url(url@) matches Ok(parts) && (parts.1 == "http"@ || parts.1
                == "https"@)) && is_regex(regex@),
    {
        match check_settings(parse_url(url), check_regex(regex)) {
            Ok(location) => Ok(
                RuntimeConfig {
                    cache_dir: cache_dir.to_owned(),
                    url: url.to_owned(),
                    location,
                    pattern: regex.to_owned(),
                },
            ),
            Err(error) => Err(error),
        }
    }

    /// The directory of the cache.
    pub fn cache_dir(&self) -> (cache_dir: &str)
        ensures
            cache_dir@ == self.root(),
    {
        &self.cache_dir
    }

    /// Whether a decoded path matches the pattern. The default pattern matches the paths with the
    /// endings of common web assets and archives.
    pub fn matches(&self, path: &str) -> (result: bool)
        ensures
            result == regex_matches(self.matcher(), path@),
            self.matcher() == DEFAULT_REGEX@ ==> result == ends_in_one(path@, default_endings()),
    {
        proof {
            use_type_invariant(self);
            default_regex_is_for_endings();
        }
        is_match(&self.pattern, path)
    }

    /// The URL at the backend for the path and the query of a request; none where 32 bits do not
    /// count the places in it.
    pub fn backend_url(&self, path: &str, query: Option<&str>) -> (result: Option<String>)
        ensures
            parsed_url(self.backend()) is Ok,
            match result {
                Some(url) => self.reaches(path@, optional_text(query)) && url@ == self.target(
                    path@,
                    optional_text(query),
                ),
                None => !self.reaches(path@, optional_text(query)),
            },
    {
        proof {
            use_type_invariant(self);
        }
        let target = backend_path(&self.location.path, path);
        if !has_room_for_path(&self.location, &target) {
            return None;
        }
        let located = set_path(&self.url, &target);
        if has_room_for_query(&located, query) {
            Some(set_query(&located.text, query))
        } else {
            None
        }
    }
}

/// Settings can be used exactly if the URL is one under `http` or `https` and the pattern is a regular
/// expression, and are kept as they were given. Otherwise the first of these that fails is the error:
/// that there is no URL, its scheme, the pattern.
pub proof fn settings_are_kept_or_refused(
    cache_dir: Seq<char>,
    url: Seq<char>,
    regex: Seq<char>,
    result: Result<RuntimeConfig, ConfigError>,
)
    requires
        RuntimeConfig::is_outcome(cache_dir, url, regex, result),
    ensures
        result is Ok <==> (parsed_url(url) matches Ok(parts) && (parts.1 == "http"@ || parts.1
            == "https"@)) && is_regex(regex),
        result matches Ok(config) ==> config.root() == cache_dir && config.backend() == url
            && config.matcher() == regex,
        result matches Err(ConfigError::InvalidUrl(_)) <==> parsed_url(url) is Err,
        result matches Err(ConfigError::UnsupportedScheme) <==> (parsed_url(url) matches Ok(parts)
            && parts.1 != "http"@ && parts.1 != "https"@),
{
}

/// Whether settings can be used, going by what was read of the URL and by whether the pattern is a
/// regular expression. The URL is looked at first.
pub fn check_settings(
    location: Result<Location, String>,
    regex: Result<(), regex::Error>,
) -> (result: Result<Location, ConfigError>)
    ensures
        match location {
            Err(message) => result == Err::<Location, _>(ConfigError::InvalidUrl(message)),
            Ok(location) => if !is_supported(location.scheme@) {
                result == Err::<Location, _>(ConfigError::UnsupportedScheme)
            } else {
                match regex {
                    Err(error) => result == Err::<Location, _>(ConfigError::InvalidRegex(error)),
                    Ok(_) => result == Ok::<_, ConfigError>(location),
                }
            },
        },
        result matches Ok(found) ==> found.scheme@ == "http"@ || found.scheme@ == "https"@,
        location matches Ok(location) ==> (location.scheme@ == "http"@ || location.scheme@
            == "https"@ ==> (regex is Ok <==> result is Ok)),
{
    let location = match location {
        Ok(location) => location,
        Err(message) => return Err(ConfigError::InvalidUrl(message)),
    };
    if !same_text(&location.scheme, "http") && !same_text(&location.scheme, "https") {
        return Err(ConfigError::UnsupportedScheme);
    }
    match regex {
        Ok(()) => Ok(location),
        Err(error) => Err(ConfigError::InvalidRegex(error)),
    }
}

/// A path without the slashes at its end.
pub open spec fn trimmed(path: Seq<char>) -> Seq<char>
    decreases path.len(),
{
    if path.len() > 0 && path.last() == '/' {
        trimmed(path.drop_last())
    } else {
        path
    }
}

/// The path at a backend whose own path is `base`, for the path of a request.
pub open spec fn target_path(base: Seq<char>, path: Seq<char>) -> Seq<char> {
    trimmed(base) + path
}

/// The path at a backend whose own path is `base`, for the path of a request.
pub fn backend_path(base: &str, path: &str) -> (target: String)
    ensures
        target@ == target_path(base@, path@),
{
    let total = base.unicode_len();
    let mut keep: usize = 0;
    let mut seen: usize = 0;
    for c in it: base.chars()
        invariant
            it.seq() == base@,
            base@.len() == total,
            seen == it.index(),
            keep <= seen,
            trimmed(base@.take(seen as int)) == base@.take(keep as int),
    {
        assert(base@.take(seen + 1).drop_last() =~= base@.take(seen as int));
        seen = seen + 1;
        if c != '/' {
            keep = seen;
        }
    }
    assert(base@.take(seen as int) =~= base@);
    let mut target = base.substring_char(0, keep).to_owned();
    target.append(path);
    target
}

/// The path of the request goes, as it came, behind the path of the backend, without the slashes that
/// this one ends in.
pub proof fn backend_paths_end_in_the_request_path(base: Seq<char>, path: Seq<char>)
    ensures
        base.len() == 0 || base.last() != '/' ==> target_path(base, path) == base + path,
        target_path(base.push('/'), path) == target_path(base, path),
        target_path(base, path).skip(trimmed(base).len() as int) == path,
        trimmed(base).len() == 0 || trimmed(base).last() != '/',
    decreases base.len(),
{
    assert(base.push('/').drop_last() =~= base);
    assert(target_path(base, path).skip(trimmed(base).len() as int) =~= path);
    if base.len() > 0 && base.last() == '/' {
        backend_paths_end_in_the_request_path(base.drop_last(), path);
    }
}

/// The URL at the backend is the backend's own with the path behind its path set first, and with the
/// query of the request set then. Where the backend's path is some path and slashes behind it, the
/// path is that path and the request's.
pub proof fn backend_urls_take_path_then_query(
    config: RuntimeConfig,
    base: Seq<char>,
    slashes: nat,
    path: Seq<char>,
    query: Option<Seq<char>>,
)
    requires
        base.len() == 0 || base.last() != '/',
        parsed_url(config.backend())->Ok_0.2 == base + Seq::new(slashes, |i: int| '/'),
    ensures
        config.target(path, query) == url_with_query(
            url_with_path(config.backend(), base + path),
            query,
        ),
    decreases slashes,
{
    slashes_do_not_matter(base, slashes, path);
}

/// Any number of slashes behind a path does not matter.
proof fn slashes_do_not_matter(base: Seq<char>, slashes: nat, path: Seq<char>)
    requires
        base.len() == 0 || base.last() != '/',
    ensures
        target_path(base + Seq::new(slashes, |i: int| '/'), path) == base + path,
    decreases slashes,
{
    backend_paths_end_in_the_request_path(base, path);
    let all = base + Seq::new(slashes, |i: int| '/');
    if slashes == 0 {
        assert(all =~= base);
    } else {
        let fewer = base + Seq::new((slashes - 1) as nat, |i: int| '/');
        slashes_do_not_matter(base, (slashes - 1) as nat, path);
        assert(all =~= fewer.push('/'));
        backend_paths_end_in_the_request_path(fewer, path);
    }
}

/// A byte takes at most three bytes in a URL, and bytes are counted one by one. Letters, digits and
/// the signs `-`, `.`, `_`, `~` and `/` take one.
pub proof fn bytes_take_at_most_three(left: Seq<u8>, right: Seq<u8>, in_query: bool)
    ensures
        written_len(left + right, in_query) == written_len(left, in_query) + written_len(
            right,
            in_query,
        ),
        written_len(left, in_query) <= 3 * left.len(),
        (forall|i: int|
            0 <= i < left.len() ==> (45 <= #[trigger] left[i] <= 57 || 65 <= left[i] <= 90 || 97
                <= left[i] <= 122 || left[i] == 95 || left[i] == 126)) ==> written_len(
            left,
            in_query,
        ) == left.len(),
    decreases left.len(), right.len(),
{
    if right.len() > 0 {
        bytes_take_at_most_three(left, right.drop_last(), in_query);
        assert((left + right).drop_last() =~= left + right.drop_last());
    } else {
        assert(left + right =~= left);
        if left.len() > 0 {
            bytes_take_at_most_three(left.drop_last(), right, in_query);
            if forall|i: int|
                0 <= i < left.len() ==> (45 <= #[trigger] left[i] <= 57 || 65 <= left[i] <= 90 || 97
                    <= left[i] <= 122 || left[i] == 95 || left[i] == 126) {
                let before = left.drop_last();
                assert forall|i: int| 0 <= i < before.len() implies (45 <= #[trigger] before[i] <= 57
                    || 65 <= before[i] <= 90 || 97 <= before[i] <= 122 || before[i] == 95
                    || before[i] == 126) by {
                    assert(before[i] == left[i]);
                }
                assert(left[left.len() - 1] == left.last());
            }
        }
    }
}

/// A request always has a URL at the backend where the text of the backend's URL, with every byte of
/// the new path taking three, and the text that comes of it, with every byte of the query taking
/// three, keep below four gigabytes.
pub proof fn short_requests_reach_the_backend(
    config: RuntimeConfig,
    path: Seq<char>,
    query: Option<Seq<char>>,
)
    requires
        byte_len(parsed_url(config.backend())->Ok_0.0) + 1 + 3 * byte_len(config.target_path(path))
            <= u32::MAX,
        ({
            let located = parsed_url(
                url_with_path(config.backend(), config.target_path(path)),
            )->Ok_0;
            byte_len(located.0) + match query {
                Some(query) => 1 + 3 * byte_len(query),
                None => 0,
            } <= u32::MAX
        }),
    ensures
        config.reaches(path, query),
{
    let none = Seq::<u8>::empty();
    bytes_take_at_most_three(encode_utf8(config.target_path(path)), none, false);
    if let Some(query) = query {
        bytes_take_at_most_three(encode_utf8(query), none, true);
    }
}

/// The default pattern is for the paths that are anything, a dot, and one of the endings of common
/// web assets and archives.
pub proof fn default_endings_are_web_assets_and_archives(path: Seq<char>, stem: Seq<char>, word: Seq<char>)
    ensures
        set![
            "css"@, "gif"@, "html"@, "ico"@, "jpeg"@, "jpg"@, "js"@, "png"@, "svg"@, "webp"@,
            "woff"@, "woff2"@, "gz"@, "tgz"@, "zst"@,
        ].contains(word) ==> ends_in_one(stem.push('.') + word, default_endings()),
        ends_in_one(path, default_endings()) ==> exists|before: Seq<char>, ending: Seq<char>|
            #![trigger before.push('.') + ending]
            path == before.push('.') + ending && set![
                "css"@, "gif"@, "html"@, "ico"@, "jpeg"@, "jpg"@, "js"@, "png"@, "svg"@, "webp"@,
                "woff"@, "woff2"@, "gz"@, "tgz"@, "zst"@,
            ].contains(ending),
{
    let words = default_endings();
    let all = set![
        "css"@, "gif"@, "html"@, "ico"@, "jpeg"@, "jpg"@, "js"@, "png"@, "svg"@, "webp"@, "woff"@,
        "woff2"@, "gz"@, "tgz"@, "zst"@,
    ];
    if all.contains(word) {
        assert(words[0] == "css"@ && words[1] == "gif"@ && words[2] == "html"@ && words[3] == "ico"@
            && words[4] == "jpeg"@ && words[5] == "jpg"@ && words[6] == "js"@ && words[7] == "png"@
            && words[8] == "svg"@ && words[9] == "webp"@ && words[10] == "woff"@ && words[11]
            == "woff2"@ && words[12] == "gz"@ && words[13] == "tgz"@ && words[14] == "zst"@);
        assert(words.contains(word));
        let i = choose|i: int| 0 <= i < words.len() && words[i] == word;
        let text = stem.push('.') + word;
        assert(text.skip(text.len() - word.len()) =~= word);
        assert(ends_with(text, words[i]));
    }
    if ends_in_one(path, words) {
        let i = choose|i: int| 0 <= i < words.len() && ends_with(path, #[trigger] words[i]);
        let ending = words[i];
        let before = path.take(path.len() - ending.len() - 1);
        assert(path =~= before.push('.') + ending);
        assert(all.contains(ending));
    }
}

} // verus!
