//! Whether a newer release exists, and where to get it.

use crate::fmt::line_views;
use crate::outside::from_chars;
use crate::text::{
    parse_u32, parse_u32_spec, push_str, split, split_on, str_eq, strip_leading, to_chars,
    trim_start_matches,
};
use vstd::prelude::*;

verus! {

/// For how many seconds the answer of the update server is taken as
/// current: three days.
pub const CACHE_SECONDS: u64 = 259200;

/// The numbers among `pieces`, in their order; pieces that are no numbers
/// are passed over.
pub open spec fn numbers_of(pieces: Seq<Seq<char>>) -> Seq<u32>
    decreases pieces.len(),
{
    if pieces.len() == 0 {
        Seq::empty()
    } else {
        match parse_u32_spec(pieces.last()) {
            Some(n) => numbers_of(pieces.drop_last()).push(n),
            None => numbers_of(pieces.drop_last()),
        }
    }
}

/// The numeric parts of a version: its pieces between dots, as far as
/// they are numbers.
pub open spec fn version_parts(version: Seq<char>) -> Seq<u32> {
    numbers_of(split_on(version, '.'))
}

/// `latest` is above `current` at the first place where they differ,
/// among the places that both have.
pub open spec fn newer(current: Seq<u32>, latest: Seq<u32>) -> bool
    decreases current.len(),
{
    if current.len() == 0 || latest.len() == 0 {
        false
    } else if latest[0] > current[0] {
        true
    } else if latest[0] < current[0] {
        false
    } else {
        newer(current.drop_first(), latest.drop_first())
    }
}

/// What `compare_versions` returns.
pub open spec fn is_newer_version(current: Seq<char>, latest: Seq<char>) -> bool {
    newer(version_parts(current), version_parts(latest))
}

/// A version without the letters `v` in front of it.
pub open spec fn bare_version(version: Seq<char>) -> Seq<char> {
    strip_leading(version, 'v')
}

/// The numeric parts of a version.
pub fn parse_version(version: &str) -> (parts: Vec<u32>)
    ensures
        parts@ == version_parts(version@),
{
    let chars = to_chars(version);
    let pieces = split(&chars, '.');
    let ghost all = line_views(pieces@);
    let n = pieces.len();
    let mut parts: Vec<u32> = Vec::new();
    let mut i: usize = 0;
    assert(all.subrange(0, 0) =~= Seq::<Seq<char>>::empty());
    while i < n
        invariant
            n == pieces@.len(),
            0 <= i <= n,
            all == line_views(pieces@),
            parts@ == numbers_of(all.subrange(0, i as int)),
        decreases n - i,
    {
        proof {
            let cur = all.subrange(0, i + 1);
            assert(cur.drop_last() =~= all.subrange(0, i as int));
            assert(cur.last() == pieces@[i as int]@);
        }
        match parse_u32(&pieces[i]) {
            Some(number) => {
                parts.push(number);
            },
            None => {},
        }
        i += 1;
    }
    assert(all.subrange(0, n as int) =~= all);
    parts
}

/// Whether `latest` is a newer version than `current`. The versions are
/// compared part by part, as numbers, over the parts that both have; parts
/// that are no numbers do not count. Equal versions, and versions of which
/// one is the beginning of the other, are not newer.
pub fn compare_versions(current: &str, latest: &str) -> (is_newer: bool)
    ensures
        is_newer == is_newer_version(current@, latest@),
{
    let current_parts = parse_version(current);
    let latest_parts = parse_version(latest);
    let n = if current_parts.len() < latest_parts.len() {
        current_parts.len()
    } else {
        latest_parts.len()
    };
    let ghost c = current_parts@;
    let ghost l = latest_parts@;
    let mut i: usize = 0;
    assert(c.subrange(0, c.len() as int) =~= c);
    assert(l.subrange(0, l.len() as int) =~= l);
    while i < n
        invariant
            c == current_parts@,
            l == latest_parts@,
            c == version_parts(current@),
            l == version_parts(latest@),
            n <= c.len(),
            n <= l.len(),
            n == c.len() || n == l.len(),
            0 <= i <= n,
            newer(c, l) == newer(
                c.subrange(i as int, c.len() as int),
                l.subrange(i as int, l.len() as int),
            ),
        decreases n - i,
    {
        proof {
            let cs = c.subrange(i as int, c.len() as int);
            let ls = l.subrange(i as int, l.len() as int);
            assert(cs[0] == c[i as int]);
            assert(ls[0] == l[i as int]);
            assert(cs.drop_first() =~= c.subrange(i + 1, c.len() as int));
            assert(ls.drop_first() =~= l.subrange(i + 1, l.len() as int));
        }
        if latest_parts[i] > current_parts[i] {
            return true;
        } else if latest_parts[i] < current_parts[i] {
            return false;
        }
        i += 1;
    }
    false
}

/// The version that the update server names, if it is newer than the one
/// running. A `v` in front of either version does not count.
pub fn check_for_update(current_version: &str, server_version: &str) -> (found: Option<String>)
    ensures
        is_newer_version(bare_version(current_version@), bare_version(server_version@))
            ==> found is Some && found->Some_0@ == bare_version(server_version@),
        !is_newer_version(bare_version(current_version@), bare_version(server_version@))
            ==> found is None,
{
    let latest = from_chars(&trim_start_matches(&to_chars(server_version), 'v'));
    let current = from_chars(&trim_start_matches(&to_chars(current_version), 'v'));
    if compare_versions(current.as_str(), latest.as_str()) {
        Some(latest)
    } else {
        None
    }
}

/// What to do with the last answer of the update server.
#[derive(Debug, PartialEq, Eq)]
pub enum CacheVerdict {
    /// There is no answer, or it is older than three days: ask again.
    Stale,
    /// The answer is current: this is the newer version it names, if any.
    Fresh(Option<String>),
}

/// An answer from `last_check` is current at `now` (both in seconds) if
/// it is less than three days old.
pub open spec fn cache_is_fresh(now: u64, last_check: u64) -> bool {
    last_check <= now && now - last_check < CACHE_SECONDS
}

/// Whether the stored answer of the update server, given as the time in
/// seconds at which it came and the version it named, still holds at
/// `now`, and what it says about `current_version`.
pub fn judge_cache(now: u64, cache: Option<(u64, String)>, current_version: &str) -> (verdict:
    CacheVerdict)
    ensures
        match cache {
            Some((last_check, latest)) => if cache_is_fresh(now, last_check) {
                if is_newer_version(current_version@, latest@) {
                    verdict == CacheVerdict::Fresh(Some(latest))
                } else {
                    verdict == CacheVerdict::Fresh(None)
                }
            } else {
                verdict == CacheVerdict::Stale
            },
            None => verdict == CacheVerdict::Stale,
        },
{
    match cache {
        Some((last_check, latest)) => {
            if last_check <= now && now - last_check < CACHE_SECONDS {
                if compare_versions(current_version, latest.as_str()) {
                    CacheVerdict::Fresh(Some(latest))
                } else {
                    CacheVerdict::Fresh(None)
                }
            } else {
                CacheVerdict::Stale
            }
        },
        None => CacheVerdict::Stale,
    }
}

/// The name under which the update server files a system.
pub open spec fn os_key(target_os: Seq<char>) -> Seq<char> {
    if target_os == "windows"@ {
        "windows"@
    } else if target_os == "macos"@ {
        "macos"@
    } else if target_os == "linux"@ {
        "linux"@
    } else {
        "unknown"@
    }
}

/// The name under which the update server files an architecture.
pub open spec fn arch_key(target_arch: Seq<char>) -> Seq<char> {
    if target_arch == "x86_64"@ {
        "64bit"@
    } else if target_arch == "x86"@ {
        "32bit"@
    } else if target_arch == "aarch64"@ {
        "arm64"@
    } else {
        "unknown"@
    }
}

/// The update server's name for the system with the target name
/// `target_os`.
pub fn get_os_name(target_os: &str) -> (name: String)
    ensures
        name@ == os_key(target_os@),
{
    if str_eq(target_os, "windows") {
        "windows".to_owned()
    } else if str_eq(target_os, "macos") {
        "macos".to_owned()
    } else if str_eq(target_os, "linux") {
        "linux".to_owned()
    } else {
        "unknown".to_owned()
    }
}

/// The update server's name for the architecture with the target name
/// `target_arch`.
pub fn get_arch(target_arch: &str) -> (name: String)
    ensures
        name@ == arch_key(target_arch@),
{
    if str_eq(target_arch, "x86_64") {
        "64bit".to_owned()
    } else if str_eq(target_arch, "x86") {
        "32bit".to_owned()
    } else if str_eq(target_arch, "aarch64") {
        "arm64".to_owned()
    } else {
        "unknown".to_owned()
    }
}

/// A release is offered for `os` and `arch` if some asset has both.
pub open spec fn offers(assets: Seq<(String, String)>, os: Seq<char>, arch: Seq<char>) -> bool {
    exists|i: int| 0 <= i < assets.len() && (#[trigger] assets[i]).0@ == os && assets[i].1@ == arch
}

/// Whether the assets of a release, each given as platform and
/// architecture, hold one for `os` and `arch`.
pub fn has_asset(assets: &Vec<(String, String)>, os: &str, arch: &str) -> (found: bool)
    ensures
        found == offers(assets@, os@, arch@),
{
    let n = assets.len();
    let mut i: usize = 0;
    while i < n
        invariant
            n == assets@.len(),
            0 <= i <= n,
            forall|j: int| 0 <= j < i ==> !((#[trigger] assets@[j]).0@ == os@ && assets@[j].1@
                == arch@),
        decreases n - i,
    {
        if str_eq(assets[i].0.as_str(), os) && str_eq(assets[i].1.as_str(), arch) {
            return true;
        }
        i += 1;
    }
    false
}

/// Where the release for `os` and `arch` is fetched from.
pub fn download_url(os: &str, arch: &str) -> (url: String)
    ensures
        url@ == "https://fast-down-update.s121.top/cli/download/"@ + os@ + seq!['/'] + arch@,
{
    let mut buf: Vec<char> = Vec::new();
    push_str(&mut buf, "https://fast-down-update.s121.top/cli/download/");
    push_str(&mut buf, os);
    buf.push('/');
    push_str(&mut buf, arch);
    assert(buf@ =~= "https://fast-down-update.s121.top/cli/download/"@ + os@ + seq!['/'] + arch@);
    from_chars(&buf)
}

} // verus!
