//! Reading the answer to the probe, a request for the first byte alone:
//! whether the server serves ranges, how large the file is, and what to call
//! it.

use crate::download::{FileId, UrlInfo};
use crate::fmt::line_views;
use crate::headers::{names_match, same_name};
use crate::outside::{from_chars, from_utf8};
use crate::text::{
    all_digits, chars_start_with, digits_value, is_digit, is_prefix, lemma_digits_prefix,
    slice_chars, split, split_on, split_once, split_once_spec, to_chars, trim, trim_matches,
    trim_matches_spec, trim_spec,
};
use vstd::prelude::*;
use vstd::utf8::{decode_utf8, valid_utf8};

verus! {

/// What the server answered to the probe, as far as it counts.
#[derive(Debug, Clone, Default)]
pub struct ProbeResponse {
    pub status: u16,
    /// The address after all redirects.
    pub final_url: String,
    /// The path of that address.
    pub url_path: String,
    pub content_range: Option<String>,
    pub content_length: Option<u64>,
    pub content_disposition: Option<String>,
    pub etag: Option<String>,
    pub last_modified: Option<String>,
}

/// Why the probe gives no information.
#[derive(Clone, Copy, Debug, PartialEq, Eq, Structural)]
pub enum ProbeError {
    /// The status is neither 200 nor 206.
    Status(u16),
    /// The status is 206, but `Content-Range` is missing or is not the
    /// first byte of a file of known size.
    BadContentRange,
}

/// The number that `s` stands for as an unsigned 64-bit decimal: digits
/// only, at least one; nothing if `s` is not of that form or the number is
/// too large.
pub open spec fn parse_u64_spec(s: Seq<char>) -> Option<u64> {
    if s.len() > 0 && all_digits(s) && digits_value(s) <= u64::MAX {
        Some(digits_value(s) as u64)
    } else {
        None
    }
}

/// What stands before the size in the `Content-Range` of the first byte.
pub open spec fn first_byte_prefix() -> Seq<char> {
    seq!['b', 'y', 't', 'e', 's', ' ', '0', '-', '0', '/']
}

/// The size of the file according to a `Content-Range` that stands for
/// the first byte: `bytes 0-0/` and the size in digits.
pub open spec fn total_of(content_range: Seq<char>) -> Option<u64> {
    if is_prefix(first_byte_prefix(), content_range) {
        parse_u64_spec(content_range.subrange(10, content_range.len() as int))
    } else {
        None
    }
}

/// The last piece that is not empty; nothing if all are empty.
pub open spec fn last_non_empty(pieces: Seq<Seq<char>>) -> Option<Seq<char>>
    decreases pieces.len(),
{
    if pieces.len() == 0 {
        None
    } else if pieces.last().len() > 0 {
        Some(pieces.last())
    } else {
        last_non_empty(pieces.drop_last())
    }
}

/// A name, if it is there and not empty.
pub open spec fn usable(name: Option<Seq<char>>) -> Option<Seq<char>> {
    match name {
        Some(n) => if n.len() > 0 {
            Some(n)
        } else {
            None
        },
        None => None,
    }
}

/// The value of a hexadecimal digit.
pub open spec fn hex_value(c: char) -> Option<u8> {
    if '0' <= c && c <= '9' {
        Some((c as u8 - '0' as u8) as u8)
    } else if 'a' <= c && c <= 'f' {
        Some((c as u8 - 'a' as u8 + 10) as u8)
    } else if 'A' <= c && c <= 'F' {
        Some((c as u8 - 'A' as u8 + 10) as u8)
    } else {
        None
    }
}

/// The bytes that a percent-encoded text stands for: a percent sign and
/// two hexadecimal digits stand for one byte, any other ASCII character
/// for itself. A percent sign without two digits behind it, and a
/// character beyond ASCII, make the text invalid.
pub open spec fn percent_decoded(s: Seq<char>) -> Option<Seq<u8>>
    decreases s.len(),
{
    if s.len() == 0 {
        Some(Seq::empty())
    } else if s[0] == '%' {
        if s.len() >= 3 && hex_value(s[1]) is Some && hex_value(s[2]) is Some {
            match percent_decoded(s.subrange(3, s.len() as int)) {
                Some(rest) => Some(
                    seq![(hex_value(s[1])->Some_0 * 16 + hex_value(s[2])->Some_0) as u8] + rest,
                ),
                None => None,
            }
        } else {
            None
        }
    } else if s[0] <= '\x7f' {
        match percent_decoded(s.drop_first()) {
            Some(rest) => Some(seq![s[0] as u8] + rest),
            None => None,
        }
    } else {
        None
    }
}

/// The name that an extended parameter value holds: the value consists
/// of a character set, a language and the percent-encoded name, parted
/// by apostrophes; the character set has to be UTF-8, and the name has to
/// be valid in it.
pub open spec fn ext_value(v: Seq<char>) -> Option<Seq<char>> {
    match split_once_spec(v, '\'') {
        Some((charset, tail)) => match split_once_spec(tail, '\'') {
            Some((_, encoded)) => if same_name(charset, "utf-8"@) {
                match percent_decoded(encoded) {
                    Some(bytes) => if valid_utf8(bytes) {
                        Some(decode_utf8(bytes))
                    } else {
                        None
                    },
                    None => None,
                }
            } else {
                None
            },
            None => None,
        },
        None => None,
    }
}

/// The value of one part of a header if the part sets the parameter
/// `name`: the part has the form `name=value`, where white space around
/// name and value and quotes around the value do not count, and neither
/// does the case of the name.
pub open spec fn part_value(part: Seq<char>, name: Seq<char>) -> Option<Seq<char>> {
    match split_once_spec(part, '=') {
        Some((key, value)) => if same_name(trim_spec(key), name) {
            Some(trim_matches_spec(trim_spec(value), '"'))
        } else {
            None
        },
        None => None,
    }
}

/// The value of the first of `parts` that sets the parameter `name`.
pub open spec fn param_of(parts: Seq<Seq<char>>, name: Seq<char>) -> Option<Seq<char>>
    decreases parts.len(),
{
    if parts.len() == 0 {
        None
    } else {
        match part_value(parts[0], name) {
            Some(v) => Some(v),
            None => param_of(parts.drop_first(), name),
        }
    }
}

/// The value of the parameter `name` of a header whose parts are parted
/// by semicolons.
pub open spec fn header_param(header: Seq<char>, name: Seq<char>) -> Option<Seq<char>> {
    param_of(split_on(header, ';'), name)
}

/// The file name that `Content-Disposition` gives in its extended
/// parameter `filename*`.
pub open spec fn disposition_ext_name(header: Option<String>) -> Option<Seq<char>> {
    match header {
        Some(h) => match header_param(h@, "filename*"@) {
            Some(v) => ext_value(v),
            None => None,
        },
        None => None,
    }
}

/// The file name that `Content-Disposition` gives in its parameter
/// `filename`.
pub open spec fn disposition_name(header: Option<String>) -> Option<Seq<char>> {
    match header {
        Some(h) => header_param(h@, "filename"@),
        None => None,
    }
}

/// The name of the file: the extended name of `Content-Disposition`, else
/// its plain name, else the last segment of the address's path (each where
/// it is there and not empty), else `index`.
pub open spec fn raw_name_of(resp: &ProbeResponse) -> Seq<char> {
    match usable(disposition_ext_name(resp.content_disposition)) {
        Some(n) => n,
        None => match usable(disposition_name(resp.content_disposition)) {
            Some(n) => n,
            None => match last_non_empty(split_on(resp.url_path@, '/')) {
                Some(n) => n,
                None => "index"@,
            },
        },
    }
}

/// The value of the hexadecimal digit `c`.
pub fn hex_digit(c: char) -> (v: Option<u8>)
    ensures
        v == hex_value(c),
{
    if '0' <= c && c <= '9' {
        Some(c as u8 - '0' as u8)
    } else if 'a' <= c && c <= 'f' {
        Some(c as u8 - 'a' as u8 + 10)
    } else if 'A' <= c && c <= 'F' {
        Some(c as u8 - 'A' as u8 + 10)
    } else {
        None
    }
}

/// What is decoded of a text once the bytes `done` stand for its
/// beginning and `rest` is still to be decoded.
pub open spec fn decoded_with(done: Seq<u8>, rest: Seq<char>) -> Option<Seq<u8>> {
    match percent_decoded(rest) {
        Some(tail) => Some(done + tail),
        None => None,
    }
}

/// The bytes that the percent-encoded text `s` stands for.
pub fn percent_decode(s: &Vec<char>) -> (bytes: Option<Vec<u8>>)
    ensures
        match percent_decoded(s@) {
            Some(b) => bytes is Some && bytes->Some_0@ == b,
            None => bytes is None,
        },
{
    let n = s.len();
    let mut out: Vec<u8> = Vec::new();
    let mut i: usize = 0;
    proof {
        assert(s@.subrange(0, n as int) =~= s@);
        match percent_decoded(s@) {
            Some(b) => {
                assert(out@ + b =~= b);
            },
            None => {},
        }
    }
    while i < n
        invariant
            n == s@.len(),
            0 <= i <= n,
            percent_decoded(s@) == decoded_with(out@, s@.subrange(i as int, n as int)),
        decreases n - i,
    {
        let ghost rest = s@.subrange(i as int, n as int);
        let ghost before = out@;
        let c = s[i];
        assert(rest[0] == c);
        if c == '%' {
            if n - i < 3 {
                return None;
            }
            assert(rest[1] == s@[i + 1]);
            assert(rest[2] == s@[i + 2]);
            let hi = hex_digit(s[i + 1]);
            let lo = hex_digit(s[i + 2]);
            match (hi, lo) {
                (Some(h), Some(l)) => {
                    out.push(h * 16 + l);
                    proof {
                        assert(rest.subrange(3, rest.len() as int) =~= s@.subrange(
                            i + 3,
                            n as int,
                        ));
                        match percent_decoded(s@.subrange(i + 3, n as int)) {
                            Some(tail) => {
                                assert(before + (seq![(h * 16 + l) as u8] + tail) =~= out@ + tail);
                            },
                            None => {},
                        }
                    }
                    i += 3;
                },
                _ => {
                    return None;
                },
            }
        } else if c <= '\x7f' {
            out.push(c as u8);
            proof {
                assert(rest.drop_first() =~= s@.subrange(i + 1, n as int));
                match percent_decoded(s@.subrange(i + 1, n as int)) {
                    Some(tail) => {
                        assert(before + (seq![c as u8] + tail) =~= out@ + tail);
                    },
                    None => {},
                }
            }
            i += 1;
        } else {
            return None;
        }
    }
    proof {
        assert(s@.subrange(n as int, n as int) =~= Seq::<char>::empty());
        assert(out@ + Seq::<u8>::empty() =~= out@);
    }
    Some(out)
}

/// The name that the extended parameter value `v` holds.
pub fn parse_ext_value(v: &Vec<char>) -> (name: Option<String>)
    ensures
        match ext_value(v@) {
            Some(n) => name is Some && name->Some_0@ == n,
            None => name is None,
        },
{
    match split_once(v, '\'') {
        Some((charset, tail)) => match split_once(&tail, '\'') {
            Some((_, encoded)) => {
                let given = from_chars(&charset);
                if names_match(given.as_str(), "utf-8") {
                    match percent_decode(&encoded) {
                        Some(bytes) => from_utf8(bytes),
                        None => None,
                    }
                } else {
                    None
                }
            },
            None => None,
        },
        None => None,
    }
}

/// The value of the parameter `name` of the header `header`.
pub fn find_param(header: &str, name: &str) -> (value: Option<Vec<char>>)
    ensures
        match header_param(header@, name@) {
            Some(v) => value is Some && value->Some_0@ == v,
            None => value is None,
        },
{
    let chars = to_chars(header);
    let parts = split(&chars, ';');
    let ghost all = line_views(parts@);
    let n = parts.len();
    let mut i: usize = 0;
    assert(all.subrange(0, n as int) =~= all);
    while i < n
        invariant
            n == parts@.len(),
            0 <= i <= n,
            all == line_views(parts@),
            all == split_on(header@, ';'),
            param_of(all, name@) == param_of(all.subrange(i as int, n as int), name@),
        decreases n - i,
    {
        proof {
            let cur = all.subrange(i as int, n as int);
            assert(cur[0] == parts@[i as int]@);
            assert(cur.drop_first() =~= all.subrange(i + 1, n as int));
        }
        match split_once(&parts[i], '=') {
            Some((key, value)) => {
                let key = from_chars(&trim(&key));
                if names_match(key.as_str(), name) {
                    return Some(trim_matches(&trim(&value), '"'));
                }
            },
            None => {},
        }
        i += 1;
    }
    None
}

/// What the probe says.
pub open spec fn probe_outcome(resp: &ProbeResponse) -> Result<(bool, u64), ProbeError> {
    if resp.status == 206 {
        match resp.content_range {
            Some(range) => match total_of(range@) {
                Some(total) => Ok((true, total)),
                None => Err(ProbeError::BadContentRange),
            },
            None => Err(ProbeError::BadContentRange),
        }
    } else if resp.status == 200 {
        Ok(
            (
                false,
                match resp.content_length {
                    Some(n) => n,
                    None => 0,
                },
            ),
        )
    } else {
        Err(ProbeError::Status(resp.status))
    }
}

/// The number that the digits `s` stand for.
pub fn parse_u64(s: &Vec<char>) -> (r: Option<u64>)
    ensures
        r == parse_u64_spec(s@),
{
    let n = s.len();
    if n == 0 {
        return None;
    }
    let mut value: u64 = 0;
    let mut i: usize = 0;
    assert(s@.subrange(0, 0) =~= Seq::<char>::empty());
    while i < n
        invariant
            n == s@.len(),
            n > 0,
            0 <= i <= n,
            forall|j: int| 0 <= j < i ==> is_digit(#[trigger] s@[j]),
            value == digits_value(s@.subrange(0, i as int)),
        decreases n - i,
    {
        let c = s[i];
        if !('0' <= c && c <= '9') {
            return None;
        }
        let d: u64 = (c as u32 - '0' as u32) as u64;
        proof {
            let t = s@.subrange(0, i + 1);
            assert(t.drop_last() =~= s@.subrange(0, i as int));
            assert(t.last() == c);
            lemma_digits_prefix(s@, i + 1);
        }
        if value > (u64::MAX - d) / 10 {
            assert(value * 10 + d > u64::MAX) by (nonlinear_arith)
                requires
                    value > (u64::MAX - d) / 10,
                    0 <= d < 10,
            ;
            return None;
        }
        assert(value * 10 + d <= u64::MAX) by (nonlinear_arith)
            requires
                value <= (u64::MAX - d) / 10,
                0 <= d < 10,
        ;
        value = value * 10 + d;
        i += 1;
    }
    assert(s@.subrange(0, n as int) =~= s@);
    Some(value)
}

/// The size of the file according to `content_range`.
pub fn parse_total(content_range: &str) -> (total: Option<u64>)
    ensures
        total == total_of(content_range@),
{
    let chars = to_chars(content_range);
    let mut prefix: Vec<char> = Vec::new();
    prefix.push('b');
    prefix.push('y');
    prefix.push('t');
    prefix.push('e');
    prefix.push('s');
    prefix.push(' ');
    prefix.push('0');
    prefix.push('-');
    prefix.push('0');
    prefix.push('/');
    assert(prefix@ =~= first_byte_prefix());
    if chars_start_with(&chars, &prefix) {
        let digits = slice_chars(&chars, 10, chars.len());
        parse_u64(&digits)
    } else {
        None
    }
}

/// The last segment of `path` that is not empty.
pub fn last_segment(path: &str) -> (segment: Option<String>)
    ensures
        match last_non_empty(split_on(path@, '/')) {
            Some(s) => segment is Some && segment->Some_0@ == s,
            None => segment is None,
        },
{
    let chars = to_chars(path);
    let pieces = split(&chars, '/');
    let ghost all = line_views(pieces@);
    let mut k: usize = pieces.len();
    assert(all.subrange(0, k as int) =~= all);
    while k > 0
        invariant
            0 <= k <= pieces@.len(),
            all == line_views(pieces@),
            all == split_on(path@, '/'),
            last_non_empty(all) == last_non_empty(all.subrange(0, k as int)),
        decreases k,
    {
        proof {
            let cur = all.subrange(0, k as int);
            assert(cur.last() == pieces@[k - 1]@);
            assert(cur.drop_last() =~= all.subrange(0, k - 1));
        }
        if pieces[k - 1].len() > 0 {
            return Some(from_chars(&pieces[k - 1]));
        }
        k -= 1;
    }
    None
}

/// The name of the file that the probe found.
pub fn raw_name(resp: &ProbeResponse) -> (name: String)
    ensures
        name@ == raw_name_of(resp),
{
    if let Some(header) = &resp.content_disposition {
        if let Some(value) = find_param(header.as_str(), "filename*") {
            if let Some(n) = parse_ext_value(&value) {
                if n.as_str().unicode_len() > 0 {
                    return n;
                }
            }
        }
        if let Some(n) = find_param(header.as_str(), "filename") {
            if n.len() > 0 {
                return from_chars(&n);
            }
        }
    }
    match last_segment(resp.url_path.as_str()) {
        Some(n) => n,
        None => "index".to_owned(),
    }
}

/// What the probe has found. An answer 206 whose `Content-Range` stands
/// for the first byte of a file of known size means that the server serves
/// ranges, and gives the size. An answer 200 means that it does not; the
/// size is then the content length, or zero where that is not given. Any
/// other answer is an error.
pub fn prefetch(resp: &ProbeResponse) -> (r: Result<UrlInfo, ProbeError>)
    ensures
        match probe_outcome(resp) {
            Ok((fast, size)) => r is Ok && r->Ok_0.fast_download == fast && r->Ok_0.size == size
                && r->Ok_0.final_url == resp.final_url && r->Ok_0.raw_name@ == raw_name_of(resp)
                && r->Ok_0.file_id.etag == resp.etag && r->Ok_0.file_id.last_modified
                == resp.last_modified,
            Err(e) => r == Err::<UrlInfo, ProbeError>(e),
        },
{
    let (fast_download, size) = if resp.status == 206 {
        match &resp.content_range {
            Some(range) => match parse_total(range.as_str()) {
                Some(total) => (true, total),
                None => {
                    return Err(ProbeError::BadContentRange);
                },
            },
            None => {
                return Err(ProbeError::BadContentRange);
            },
        }
    } else if resp.status == 200 {
        (
            false,
            match resp.content_length {
                Some(n) => n,
                None => 0,
            },
        )
    } else {
        return Err(ProbeError::Status(resp.status));
    };
    Ok(
        UrlInfo {
            final_url: resp.final_url.clone(),
            size,
            raw_name: raw_name(resp),
            file_id: FileId {
                etag: crate::args::clone_opt(&resp.etag),
                last_modified: crate::args::clone_opt(&resp.last_modified),
            },
            fast_download,
        },
    )
}

} // verus!
