//! Request headers as a list of name and value.

use crate::download::BROWSER_USER_AGENT;
use crate::outside::{
    header_name_ok, header_value_ok, origin_text, url_origin, valid_header_name, valid_header_value,
};
use crate::text::to_chars;
use vstd::prelude::*;

verus! {

/// A header: its name and its value.
pub type Header = (String, String);

/// The lower-case form of an ASCII letter; any other character itself.
pub open spec fn ascii_lower(c: char) -> char {
    if 'A' <= c && c <= 'Z' {
        ((c as u8) + 32) as char
    } else {
        c
    }
}

/// Header names are the same if they differ at most in the case of ASCII
/// letters.
pub open spec fn same_name(a: Seq<char>, b: Seq<char>) -> bool {
    a.len() == b.len() && forall|i: int| 0 <= i < a.len() ==> ascii_lower(#[trigger] a[i])
        == ascii_lower(b[i])
}

/// The headers as texts.
pub open spec fn header_texts(h: Seq<Header>) -> Seq<(Seq<char>, Seq<char>)> {
    Seq::new(h.len(), |i: int| (h[i].0@, h[i].1@))
}

/// Some header of `h` has the name `name`.
pub open spec fn has_header(h: Seq<(Seq<char>, Seq<char>)>, name: Seq<char>) -> bool {
    exists|i: int| 0 <= i < h.len() && same_name((#[trigger] h[i]).0, name)
}

/// `h` with the header `name: value` added at the end unless it has a
/// header of that name.
pub open spec fn with_default(
    h: Seq<(Seq<char>, Seq<char>)>,
    name: Seq<char>,
    value: Seq<char>,
) -> Seq<(Seq<char>, Seq<char>)> {
    if has_header(h, name) {
        h
    } else {
        h.push((name, value))
    }
}

/// The headers of a request that imitates a browser: those given, and
/// `origin`, `referer` and `user-agent` where they are not among them.
pub open spec fn browser_headers(
    h: Seq<(Seq<char>, Seq<char>)>,
    url: Seq<char>,
    origin: Seq<char>,
) -> Seq<(Seq<char>, Seq<char>)> {
    with_default(
        with_default(with_default(h, "origin"@, origin), "referer"@, url),
        "user-agent"@,
        BROWSER_USER_AGENT@,
    )
}

/// Why a download cannot start.
#[derive(Clone, Copy, Debug, PartialEq, Eq, Structural)]
pub enum PreflightError {
    /// The URL does not parse.
    BadUrl,
    /// The URL or its origin cannot stand in a header.
    BadHeaderValue,
}

/// What `prepare_headers` returns, given the origin of the URL.
pub open spec fn prepared(
    h: Seq<(Seq<char>, Seq<char>)>,
    url: Seq<char>,
    browser: bool,
    origin: Option<Seq<char>>,
) -> Result<Seq<(Seq<char>, Seq<char>)>, PreflightError> {
    match origin {
        None => Err(PreflightError::BadUrl),
        Some(o) => if !browser {
            Ok(h)
        } else if !valid_header_value(o) || !valid_header_value(url) {
            Err(PreflightError::BadHeaderValue)
        } else {
            Ok(browser_headers(h, url, o))
        },
    }
}

/// The result of `prepare_headers` as texts.
pub open spec fn result_texts(r: Result<Vec<Header>, PreflightError>) -> Result<
    Seq<(Seq<char>, Seq<char>)>,
    PreflightError,
> {
    match r {
        Ok(h) => Ok(header_texts(h@)),
        Err(e) => Err(e),
    }
}

/// The lower-case form of an ASCII letter; any other character itself.
pub fn to_ascii_lower(c: char) -> (l: char)
    ensures
        l == ascii_lower(c),
{
    if 'A' <= c && c <= 'Z' {
        ((c as u8) + 32) as char
    } else {
        c
    }
}

/// Whether two header names are the same.
pub fn names_match(a: &str, b: &str) -> (same: bool)
    ensures
        same == same_name(a@, b@),
{
    let x = to_chars(a);
    let y = to_chars(b);
    if x.len() != y.len() {
        return false;
    }
    let n = x.len();
    let mut i: usize = 0;
    while i < n
        invariant
            n == x@.len(),
            n == y@.len(),
            x@ == a@,
            y@ == b@,
            0 <= i <= n,
            forall|j: int| 0 <= j < i ==> ascii_lower(#[trigger] x@[j]) == ascii_lower(y@[j]),
        decreases n - i,
    {
        if to_ascii_lower(x[i]) != to_ascii_lower(y[i]) {
            assert(ascii_lower(a@[i as int]) != ascii_lower(b@[i as int]));
            return false;
        }
        i += 1;
    }
    true
}

/// Whether `headers` holds a header of the name `name`.
pub fn contains_header(headers: &Vec<Header>, name: &str) -> (found: bool)
    ensures
        found == has_header(header_texts(headers@), name@),
{
    let n = headers.len();
    let mut i: usize = 0;
    let ghost h = header_texts(headers@);
    while i < n
        invariant
            n == headers@.len(),
            0 <= i <= n,
            h == header_texts(headers@),
            forall|j: int| 0 <= j < i ==> !same_name((#[trigger] h[j]).0, name@),
        decreases n - i,
    {
        if names_match(headers[i].0.as_str(), name) {
            assert(same_name(h[i as int].0, name@));
            return true;
        }
        i += 1;
    }
    false
}

/// Adds the header `name: value` at the end of `headers` unless a header
/// of that name is there.
pub fn insert_default(headers: &mut Vec<Header>, name: &str, value: &str)
    ensures
        header_texts(final(headers)@) == with_default(header_texts(old(headers)@), name@, value@),
{
    if !contains_header(headers, name) {
        headers.push((name.to_owned(), value.to_owned()));
        assert(header_texts(headers@) =~= header_texts(old(headers)@).push((name@, value@)));
    }
}

/// Adds to `headers` what a browser would send with a request for `url`,
/// whose origin is `origin`: `origin`, `referer` and `user-agent`, each
/// unless a header of that name is already there.
pub fn seed_browser_headers(headers: &mut Vec<Header>, url: &str, origin: &str)
    ensures
        header_texts(final(headers)@) == browser_headers(
            header_texts(old(headers)@),
            url@,
            origin@,
        ),
{
    insert_default(headers, "origin", origin);
    insert_default(headers, "referer", url);
    insert_default(headers, "user-agent", BROWSER_USER_AGENT);
}

/// The headers with which `url` is requested. The URL has to parse. Where
/// a browser is imitated, the URL and its origin have to be valid header
/// values, and the headers of a browser are added to those given.
pub fn prepare_headers(headers: Vec<Header>, url: &str, browser: bool) -> (r: Result<
    Vec<Header>,
    PreflightError,
>)
    ensures
        result_texts(r) == prepared(header_texts(headers@), url@, browser, origin_text(url@)),
{
    match url_origin(url) {
        None => Err(PreflightError::BadUrl),
        Some(origin) => {
            if !browser {
                Ok(headers)
            } else if !header_value_ok(origin.as_str()) || !header_value_ok(url) {
                Err(PreflightError::BadHeaderValue)
            } else {
                let mut headers = headers;
                seed_browser_headers(&mut headers, url, origin.as_str());
                Ok(headers)
            }
        },
    }
}

/// Whether a header can be sent: its name and its value are valid.
pub open spec fn sendable(h: (Seq<char>, Seq<char>)) -> bool {
    valid_header_name(h.0) && valid_header_value(h.1)
}

/// The headers of `h` that can be sent, in their order.
pub open spec fn sendable_headers(h: Seq<(Seq<char>, Seq<char>)>) -> Seq<(Seq<char>, Seq<char>)>
    decreases h.len(),
{
    if h.len() == 0 {
        Seq::empty()
    } else if sendable(h.last()) {
        sendable_headers(h.drop_last()).push(h.last())
    } else {
        sendable_headers(h.drop_last())
    }
}

/// The headers of `headers` that can be sent, in their order; the others
/// are left out.
pub fn valid_headers(headers: &Vec<Header>) -> (kept: Vec<Header>)
    ensures
        header_texts(kept@) == sendable_headers(header_texts(headers@)),
{
    let n = headers.len();
    let mut kept: Vec<Header> = Vec::new();
    let mut i: usize = 0;
    let ghost all = header_texts(headers@);
    assert(header_texts(kept@) =~= sendable_headers(all.subrange(0, 0)));
    while i < n
        invariant
            n == headers@.len(),
            0 <= i <= n,
            all == header_texts(headers@),
            header_texts(kept@) == sendable_headers(all.subrange(0, i as int)),
        decreases n - i,
    {
        let ghost before = header_texts(kept@);
        proof {
            let cur = all.subrange(0, i + 1);
            assert(cur.drop_last() =~= all.subrange(0, i as int));
            assert(cur.last() == all[i as int]);
        }
        if header_name_ok(headers[i].0.as_str()) && header_value_ok(headers[i].1.as_str()) {
            kept.push((headers[i].0.clone(), headers[i].1.clone()));
            assert(header_texts(kept@) =~= before.push(all[i as int]));
        }
        i += 1;
    }
    assert(all.subrange(0, n as int) =~= all);
    kept
}

} // verus!

verus! {

/// For each header, whether its name is another one than `name`.
pub open spec fn other_names(h: Seq<(Seq<char>, Seq<char>)>, name: Seq<char>) -> Seq<bool> {
    Seq::new(h.len(), |i: int| !same_name(h[i].0, name))
}

/// `h` with the header `name: value` at the end, in place of the headers
/// of that name.
pub open spec fn with_header(
    h: Seq<(Seq<char>, Seq<char>)>,
    name: Seq<char>,
    value: Seq<char>,
) -> Seq<(Seq<char>, Seq<char>)> {
    crate::retain::kept(h, other_names(h, name)).push((name, value))
}

/// The texts of what is kept of a list of headers are what is kept of
/// the texts.
pub proof fn lemma_kept_texts(h: Seq<Header>, mask: Seq<bool>)
    requires
        h.len() == mask.len(),
    ensures
        header_texts(crate::retain::kept(h, mask)) == crate::retain::kept(header_texts(h), mask),
    decreases h.len(),
{
    if h.len() > 0 {
        lemma_kept_texts(h.drop_last(), mask.drop_last());
        assert(header_texts(h).drop_last() =~= header_texts(h.drop_last()));
        let k1 = crate::retain::kept(h.drop_last(), mask.drop_last());
        if mask.last() {
            assert(header_texts(k1.push(h.last())) =~= header_texts(k1).push(
                (h.last().0@, h.last().1@),
            ));
        }
    } else {
        assert(header_texts(crate::retain::kept(h, mask)) =~= Seq::empty());
    }
}

/// Sets the header `name` to `value`: headers of that name leave the
/// list, and the new one is put at its end.
pub fn set_header(headers: &mut Vec<Header>, name: String, value: String)
    ensures
        header_texts(final(headers)@) == with_header(header_texts(old(headers)@), name@, value@),
{
    let n = headers.len();
    let ghost texts = header_texts(headers@);
    let mut mask: Vec<bool> = Vec::new();
    let mut i: usize = 0;
    while i < n
        invariant
            n == headers@.len(),
            *headers == *old(headers),
            texts == header_texts(headers@),
            0 <= i <= n,
            mask@ == other_names(texts, name@).subrange(0, i as int),
        decreases n - i,
    {
        let other = !names_match(headers[i].0.as_str(), name.as_str());
        mask.push(other);
        assert(mask@ =~= other_names(texts, name@).subrange(0, i + 1));
        i += 1;
    }
    assert(mask@ =~= other_names(texts, name@));
    let mut taken: Vec<Header> = Vec::new();
    core::mem::swap(&mut taken, headers);
    proof {
        lemma_kept_texts(taken@, mask@);
    }
    let mut kept = crate::retain::retain_marked(taken, &mask);
    let ghost before = header_texts(kept@);
    kept.push((name, value));
    assert(header_texts(kept@) =~= before.push((name@, value@)));
    *headers = kept;
}

/// A header line splits at its first colon into name and value, each
/// without the white space around it; a line without a colon does not
/// split.
pub open spec fn header_line(line: Seq<char>) -> Option<(Seq<char>, Seq<char>)> {
    let k = crate::text::first_index(line, ':');
    if 0 <= k < line.len() {
        Some(
            (
                crate::text::trim_spec(line.subrange(0, k)),
                crate::text::trim_spec(line.subrange(k + 1, line.len() as int)),
            ),
        )
    } else {
        None
    }
}

/// Name and value of a header given as one line, `Name: value`.
pub fn parse_header_line(line: &str) -> (parts: Option<(String, String)>)
    ensures
        match header_line(line@) {
            Some((name, value)) => parts is Some && parts->Some_0.0@ == name && parts->Some_0.1@
                == value,
            None => parts is None,
        },
{
    let chars = to_chars(line);
    let n = chars.len();
    let mut k: usize = 0;
    while k < n && chars[k] != ':'
        invariant
            n == chars@.len(),
            0 <= k <= n,
            forall|j: int| 0 <= j < k ==> chars@[j] != ':',
        decreases n - k,
    {
        k += 1;
    }
    proof {
        crate::text::lemma_first_index(chars@, ':', k as int);
    }
    if k < n {
        let name = crate::text::trim(&crate::text::slice_chars(&chars, 0, k));
        let value = crate::text::trim(&crate::text::slice_chars(&chars, k + 1, n));
        Some((crate::outside::from_chars(&name), crate::outside::from_chars(&value)))
    } else {
        None
    }
}

} // verus!

verus! {

/// The settings of an HTTP client.
#[derive(Debug, Clone)]
pub struct ClientOptions(pub std::sync::Arc<ClientOptionsInner>);

/// What the settings of an HTTP client hold.
#[derive(Debug, Clone)]
pub struct ClientOptionsInner {
    /// The headers that go with every request.
    pub headers: Vec<Header>,
}

/// The settings of an HTTP client while they are put together.
#[derive(Debug, Clone)]
pub struct ClientOptionsBuilder {
    headers: Vec<Header>,
}

impl ClientOptions {
    /// A builder without headers.
    pub fn builder() -> (b: ClientOptionsBuilder)
        ensures
            b.listed() == Seq::<(Seq<char>, Seq<char>)>::empty(),
    {
        ClientOptionsBuilder::default()
    }

    /// The headers that go with every request.
    pub fn headers(&self) -> (h: Vec<Header>)
        ensures
            h@ == self.0.headers@,
    {
        crate::args::clone_headers(&self.0.headers)
    }
}

impl Default for ClientOptionsBuilder {
    fn default() -> (b: Self)
        ensures
            b.listed() == Seq::<(Seq<char>, Seq<char>)>::empty(),
    {
        let b = ClientOptionsBuilder { headers: Vec::new() };
        assert(header_texts(b.headers@) =~= Seq::empty());
        b
    }
}

impl ClientOptionsBuilder {
    /// The headers put together so far.
    pub closed spec fn listed(&self) -> Seq<(Seq<char>, Seq<char>)> {
        header_texts(self.headers@)
    }

    /// Takes `headers` in place of all headers so far.
    pub fn headers(self, headers: Vec<Header>) -> (b: Self)
        ensures
            b.listed() == header_texts(headers@),
    {
        ClientOptionsBuilder { headers }
    }

    /// Sets the header `key` to `val`, in place of any header of that name.
    pub fn header(self, key: String, val: String) -> (b: Self)
        ensures
            b.listed() == with_header(self.listed(), key@, val@),
    {
        let mut headers = self.headers;
        set_header(&mut headers, key, val);
        ClientOptionsBuilder { headers }
    }

    /// The settings.
    pub fn build(self) -> (options: ClientOptions)
        ensures
            header_texts(options.0.headers@) == self.listed(),
    {
        ClientOptions(std::sync::Arc::new(ClientOptionsInner { headers: self.headers }))
    }
}

} // verus!
