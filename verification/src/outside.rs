//! The calls into other crates, and into parts of the standard library of
//! which the verifier knows nothing. What is stated of them here is taken
//! from their sources and their documentation, and is not proved.

use crate::downloading::{Downloading, DownloadingView};
use dashmap::DashMap;
use vstd::prelude::*;

verus! {

/// `dashmap::DashMap`, a hash map that can be shared between threads. The
/// library never shares one: it changes a map only through an exclusive
/// reference, so that what is said of its contents holds from call to call.
#[verifier::external_type_specification]
#[verifier::external_body]
#[verifier::reject_recursive_types(K)]
#[verifier::reject_recursive_types(V)]
#[verifier::reject_recursive_types(S)]
pub struct ExDashMap<K, V, S>(DashMap<K, V, S>);

/// What a cache of records holds: for each path its record, and whether
/// the record has changed since it was last written out.
pub uninterp spec fn cache_contents(map: DashMap<String, (bool, Downloading)>) -> Map<
    Seq<char>,
    (bool, DownloadingView),
>;

/// A cache that holds nothing.
pub open spec fn no_records() -> Map<Seq<char>, (bool, DownloadingView)> {
    Map::empty()
}

/// Calls `DashMap::new`.
/// Trusted: the new map is empty.
#[verifier::external_body]
pub(crate) fn cache_new() -> (fresh: DashMap<String, (bool, Downloading)>)
    ensures
        cache_contents(fresh) == no_records(),
{
    DashMap::new()
}

/// Calls `DashMap::get` with `path` and copies the value out.
/// Trusted: it finds the value that the map holds for the key, and nothing
/// where the map has no such key.
#[verifier::external_body]
pub(crate) fn cache_get(cache: &DashMap<String, (bool, Downloading)>, path: &str) -> (found:
    Option<(bool, Downloading)>)
    ensures
        found is Some <==> cache_contents(*cache).contains_key(path@),
        found is Some ==> (found->Some_0.0, found->Some_0.1@) == cache_contents(*cache)[path@],
{
    match cache.get(path) {
        Some(entry) => Some(entry.value().clone()),
        None => None,
    }
}

/// Calls `DashMap::insert`.
/// Trusted: afterwards the map holds the value for the key, in place of
/// what it held for that key before, and is otherwise as it was.
#[verifier::external_body]
pub(crate) fn cache_insert(
    cache: &mut DashMap<String, (bool, Downloading)>,
    path: String,
    dirty: bool,
    entry: Downloading,
)
    ensures
        cache_contents(*final(cache)) == cache_contents(*old(cache)).insert(
            path@,
            (dirty, entry@),
        ),
{
    cache.insert(path, (dirty, entry));
}

/// Calls `DashMap::remove` with `path`.
/// Trusted: afterwards the map has no value for the key, and is otherwise
/// as it was.
#[verifier::external_body]
pub(crate) fn cache_remove(cache: &mut DashMap<String, (bool, Downloading)>, path: &str)
    ensures
        cache_contents(*final(cache)) == cache_contents(*old(cache)).remove(path@),
{
    cache.remove(path);
}

/// Calls `DashMap::iter` and copies the keys out.
/// Trusted: every key of the map comes once, and nothing else comes. The
/// order is not fixed.
#[verifier::external_body]
pub(crate) fn cache_keys(cache: &DashMap<String, (bool, Downloading)>) -> (keys: Vec<String>)
    ensures
        forall|k: Seq<char>|
            cache_contents(*cache).contains_key(k) <==> exists|i: int|
                0 <= i < keys@.len() && (#[trigger] keys@[i])@ == k,
        forall|i: int, j: int|
            0 <= i < j < keys@.len() ==> (#[trigger] keys@[i])@ != (#[trigger] keys@[j])@,
{
    cache.iter().map(|entry| entry.key().clone()).collect()
}

/// The ASCII serialization of the origin of the URL that `url` parses to;
/// `None` where `url` does not parse as an absolute URL.
pub uninterp spec fn origin_text(url: Seq<char>) -> Option<Seq<char>>;

/// A character that may stand in a header name: a letter, a digit, or one
/// of ``!#$%&'*+-.^_`|~``.
pub open spec fn is_token_char(c: char) -> bool {
    ('a' <= c && c <= 'z') || ('A' <= c && c <= 'Z') || ('0' <= c && c <= '9') || c == '!' || c
        == '#' || c == '$' || c == '%' || c == '&' || c == '\'' || c == '*' || c == '+' || c == '-'
        || c == '.' || c == '^' || c == '_' || c == '`' || c == '|' || c == '~'
}

/// A header name is valid if it is not empty, has at most 65535
/// characters, and consists of token characters.
pub open spec fn valid_header_name(name: Seq<char>) -> bool {
    &&& 0 < name.len() <= 65535
    &&& forall|i: int| 0 <= i < name.len() ==> is_token_char(#[trigger] name[i])
}

/// A character that may stand in a header value: a tab, or anything from
/// the space on but the delete character.
pub open spec fn is_value_char(c: char) -> bool {
    c == '\t' || (c >= ' ' && c != '\x7f')
}

/// A header value is valid if all its characters may stand in one.
pub open spec fn valid_header_value(value: Seq<char>) -> bool {
    forall|i: int| 0 <= i < value.len() ==> is_value_char(#[trigger] value[i])
}

/// Calls `url::Url::parse` on `url` and, where that succeeds,
/// `Url::origin` and `Origin::ascii_serialization` on the outcome.
/// Trusted: the outcome depends on the text of `url` alone. (For the
/// schemes ftp, http, https, ws and wss the serialization is scheme, host
/// and, unless it is the scheme's default, port; for any other it is the
/// word `null`.)
#[verifier::external_body]
pub(crate) fn url_origin(url: &str) -> (origin: Option<String>)
    ensures
        crate::text::opt_text(origin) == origin_text(url@),
{
    match url::Url::parse(url) {
        Ok(parsed) => Some(parsed.origin().ascii_serialization()),
        Err(_) => None,
    }
}

/// Calls `reqwest::header::HeaderName::from_str` on `name` and says
/// whether it succeeded.
/// Trusted: it succeeds exactly on the valid header names: it refuses the
/// empty name and names of more than 65535 bytes, and maps every byte
/// through a table that is zero for all but the token characters.
#[verifier::external_body]
pub(crate) fn header_name_ok(name: &str) -> (ok: bool)
    ensures
        ok == valid_header_name(name@),
{
    name.parse::<reqwest::header::HeaderName>().is_ok()
}

/// Calls `reqwest::header::HeaderValue::from_str` on `value` and says
/// whether it succeeded.
/// Trusted: it succeeds exactly on the valid header values: it refuses a
/// text if one of its bytes is below 32 and not a tab, or is 127.
#[verifier::external_body]
pub(crate) fn header_value_ok(value: &str) -> (ok: bool)
    ensures
        ok == valid_header_value(value@),
{
    reqwest::header::HeaderValue::from_str(value).is_ok()
}

/// Calls `String::from_iter` on the characters `v`.
/// Trusted: it builds the string that holds exactly these characters in
/// this order.
#[verifier::external_body]
pub(crate) fn from_chars(v: &Vec<char>) -> (s: String)
    ensures
        s@ == v@,
{
    String::from_iter(v.iter())
}

/// Calls `String::from_utf8` on `bytes`.
/// Trusted: it succeeds exactly on valid UTF-8, and gives the text that
/// the bytes encode.
#[verifier::external_body]
pub(crate) fn from_utf8(bytes: Vec<u8>) -> (text: Option<String>)
    ensures
        text is Some <==> vstd::utf8::valid_utf8(bytes@),
        text is Some ==> text->Some_0@ == vstd::utf8::decode_utf8(bytes@),
{
    String::from_utf8(bytes).ok()
}

/// Calls `std::path::Path::is_absolute` on `path`.
/// Trusted: nothing. What counts as absolute differs between systems.
#[verifier::external_body]
pub(crate) fn path_is_absolute(path: &str) -> (absolute: bool) {
    std::path::Path::new(path).is_absolute()
}

/// Calls `std::path::Path::join` on `base` with `path`.
/// Trusted: nothing. The separator differs between systems.
#[verifier::external_body]
pub(crate) fn path_join(base: &str, path: &str) -> (joined: String) {
    std::path::Path::new(base).join(path).to_string_lossy().into_owned()
}

} // verus!
