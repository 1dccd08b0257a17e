//! The records of downloads in flight as they are held in memory between
//! two writes to the database: a cache keyed by target path, in which each
//! record carries a mark that says whether it has changed since it was last
//! written out.

use crate::args::clone_opt;
use crate::download::FileId;
use crate::downloading::{Downloading, DownloadingView};
use crate::fmt::{add_prefix_spec, add_prefix_to_lines};
use crate::outside::{
    cache_contents, cache_get, cache_insert, cache_keys, cache_new, cache_remove, from_chars,
    no_records,
};
use crate::retain::{kept, retain_marked};
use crate::text::{decimal, opt_text, push_decimal, push_str};
use dashmap::DashMap;
use vstd::prelude::*;

verus! {

/// The version of the database's layout; it is part of its file name.
pub const CURRENT_DB_VERSION: u32 = 2;

/// The records in memory.
pub struct Store {
    cache: DashMap<String, (bool, Downloading)>,
}

/// A record with new progress and time spent.
pub open spec fn progressed(
    entry: DownloadingView,
    progress: Seq<(u64, u64)>,
    elapsed: u64,
) -> DownloadingView {
    DownloadingView { progress, elapsed, ..entry }
}

/// A record that has just begun: nothing written, no time spent.
pub open spec fn begun(
    file_name: Seq<char>,
    file_size: u64,
    file_id: &FileId,
    url: Seq<char>,
) -> DownloadingView {
    DownloadingView {
        url,
        file_name,
        file_size,
        etag: opt_text(file_id.etag),
        last_modified: opt_text(file_id.last_modified),
        progress: Seq::empty(),
        elapsed: 0,
    }
}

/// The cache with every mark cleared.
pub open spec fn all_clean(m: Map<Seq<char>, (bool, DownloadingView)>) -> Map<
    Seq<char>,
    (bool, DownloadingView),
> {
    Map::new(|k: Seq<char>| m.contains_key(k), |k: Seq<char>| (false, m[k].1))
}

/// The name of the database file.
pub open spec fn db_file_name_spec() -> Seq<char> {
    "fd-state-v"@ + decimal(CURRENT_DB_VERSION as nat) + ".db"@
}

/// The name of the database file: it carries the version of the layout.
pub fn db_file_name() -> (name: String)
    ensures
        name@ == db_file_name_spec(),
{
    let mut buf: Vec<char> = Vec::new();
    push_str(&mut buf, "fd-state-v");
    push_decimal(&mut buf, CURRENT_DB_VERSION as u64);
    push_str(&mut buf, ".db");
    assert(buf@ =~= db_file_name_spec());
    from_chars(&buf)
}

/// For each path, whether its target is missing.
pub open spec fn missing(exists: Seq<bool>) -> Seq<bool> {
    Seq::new(exists.len(), |i: int| !exists[i])
}

impl Store {
    /// What the cache holds: for each path its record and its mark.
    pub closed spec fn view(&self) -> Map<Seq<char>, (bool, DownloadingView)> {
        cache_contents(self.cache)
    }

    /// An empty cache.
    pub fn new() -> (store: Self)
        ensures
            store@ == no_records(),
    {
        Store { cache: cache_new() }
    }

    /// Whether the cache holds a record for `path`.
    pub fn is_cached(&self, path: &str) -> (held: bool)
        ensures
            held == self@.contains_key(path@),
    {
        cache_get(&self.cache, path).is_some()
    }

    /// Begins a record for `path`, with nothing written and no time spent,
    /// in place of any record that the cache held for the path. The record
    /// comes back to be written to the database; in the cache it counts as
    /// unchanged.
    pub fn init_entry(
        &mut self,
        path: String,
        file_name: String,
        file_size: u64,
        file_id: &FileId,
        url: String,
    ) -> (entry: Downloading)
        ensures
            entry@ == begun(file_name@, file_size, file_id, url@),
            final(self)@ == old(self)@.insert(path@, (false, entry@)),
    {
        let etag = clone_opt(&file_id.etag);
        let last_modified = clone_opt(&file_id.last_modified);
        let entry = Downloading {
            file_name: file_name.clone(),
            file_size,
            etag: clone_opt(&etag),
            last_modified: clone_opt(&last_modified),
            url: url.clone(),
            progress: Vec::new(),
            elapsed: 0,
        };
        let copy = Downloading {
            file_name,
            file_size,
            etag,
            last_modified,
            url,
            progress: Vec::new(),
            elapsed: 0,
        };
        assert(entry.progress@ =~= copy.progress@);
        cache_insert(&mut self.cache, path, false, copy);
        entry
    }

    /// The record for `path`. `stored` is what the database holds for the
    /// path; it is looked at only where the cache holds nothing, and is then
    /// taken into the cache as unchanged.
    pub fn get_entry(&mut self, path: &str, stored: Option<Downloading>) -> (entry: Option<
        Downloading,
    >)
        ensures
            old(self)@.contains_key(path@) ==> entry is Some && entry->Some_0@ == old(
                self,
            )@[path@].1 && final(self)@ == old(self)@,
            !old(self)@.contains_key(path@) ==> match stored {
                Some(s) => entry is Some && entry->Some_0@ == s@ && final(self)@ == old(
                    self,
                )@.insert(path@, (false, s@)),
                None => entry is None && final(self)@ == old(self)@,
            },
    {
        match cache_get(&self.cache, path) {
            Some((_, entry)) => Some(entry),
            None => match stored {
                Some(s) => {
                    let copy = s.clone_record();
                    cache_insert(&mut self.cache, path.to_owned(), false, copy);
                    Some(s)
                },
                None => None,
            },
        }
    }

    /// Sets progress and time spent of the record for `path`, and marks
    /// it as changed. `stored` is what the database holds for the path; it
    /// is looked at only where the cache holds nothing. Where neither holds
    /// a record nothing happens.
    pub fn update_entry(
        &mut self,
        path: &str,
        progress: Vec<(u64, u64)>,
        elapsed: u64,
        stored: Option<Downloading>,
    )
        ensures
            old(self)@.contains_key(path@) ==> final(self)@ == old(self)@.insert(
                path@,
                (true, progressed(old(self)@[path@].1, progress@, elapsed)),
            ),
            !old(self)@.contains_key(path@) ==> match stored {
                Some(s) => final(self)@ == old(self)@.insert(
                    path@,
                    (true, progressed(s@, progress@, elapsed)),
                ),
                None => final(self)@ == old(self)@,
            },
    {
        let found = match cache_get(&self.cache, path) {
            Some((_, entry)) => Some(entry),
            None => stored,
        };
        match found {
            Some(entry) => {
                let Downloading { url, file_name, file_size, etag, last_modified, .. } = entry;
                let next = Downloading {
                    url,
                    file_name,
                    file_size,
                    etag,
                    last_modified,
                    progress,
                    elapsed,
                };
                cache_insert(&mut self.cache, path.to_owned(), true, next);
            },
            None => {},
        }
    }

    /// The paths whose targets are no longer on disk, where `exists` says of
    /// each path whether its target is there: their records are to be deleted.
    pub fn clean(paths: Vec<String>, exists: &Vec<bool>) -> (stale: Vec<String>)
        requires
            paths@.len() == exists@.len(),
        ensures
            stale@ == kept(paths@, missing(exists@)),
    {
        let n = exists.len();
        let mut mask: Vec<bool> = Vec::new();
        let mut i: usize = 0;
        while i < n
            invariant
                n == exists@.len(),
                0 <= i <= n,
                mask@ == missing(exists@).subrange(0, i as int),
            decreases n - i,
        {
            mask.push(!exists[i]);
            assert(mask@ =~= missing(exists@).subrange(0, i + 1));
            i += 1;
        }
        assert(mask@ =~= missing(exists@));
        retain_marked(paths, &mask)
    }

    /// The listing of all records for people. `rows` holds for each record its
    /// path and its text as `Downloading::display` gives it.
    pub fn display(
        with_details: bool,
        db_path: Option<&str>,
        rows: &Vec<(String, String)>,
        labels: &StoreLabels,
    ) -> (content: String)
        ensures
            content@ == listing_head(
                with_details,
                match db_path {
                    Some(p) => Some(p@),
                    None => None,
                },
                labels,
            ) + listing_rows(rows@, rows@.len() as int, labels),
    {
        let mut buf: Vec<char> = Vec::new();
        if with_details {
            push_str(&mut buf, labels.version.as_str());
            buf.push(':');
            buf.push(' ');
            push_decimal(&mut buf, CURRENT_DB_VERSION as u64);
            buf.push('\n');
            let ghost first = buf@;
            assert(first =~= crate::downloading::field_line(
                labels.version@,
                decimal(CURRENT_DB_VERSION as nat),
            ));
            match db_path {
                Some(p) => {
                    push_str(&mut buf, labels.db_path.as_str());
                    buf.push(':');
                    buf.push(' ');
                    push_str(&mut buf, p);
                    buf.push('\n');
                    assert(buf@ =~= first + crate::downloading::field_line(labels.db_path@, p@));
                },
                None => {
                    assert(buf@ =~= first + Seq::<char>::empty());
                },
            }
        }
        let ghost before_rule = buf@;
        push_str(&mut buf, "----------------------\n");
        let ghost head = buf@;
        assert(head =~= listing_head(
            with_details,
            match db_path {
                Some(p) => Some(p@),
                None => None,
            },
            labels,
        ));
        let n = rows.len();
        let mut i: usize = 0;
        assert(buf@ =~= head + listing_rows(rows@, 0, labels));
        while i < n
            invariant
                n == rows@.len(),
                0 <= i <= n,
                buf@ == head + listing_rows(rows@, i as int, labels),
            decreases n - i,
        {
            let ghost before = buf@;
            buf.push('|');
            buf.push(' ');
            push_str(&mut buf, labels.file_path.as_str());
            buf.push(':');
            buf.push(' ');
            push_str(&mut buf, rows[i].0.as_str());
            buf.push('\n');
            let barred = add_prefix_to_lines(rows[i].1.as_str(), "| ");
            proof {
                reveal_strlit("| ");
                assert("| "@ =~= seq!['|', ' ']);
            }
            push_str(&mut buf, barred.as_str());
            buf.push('\n');
            push_str(&mut buf, "----------------------\n");
            assert(buf@ =~= before + listing_row(rows@[i as int].0@, rows@[i as int].1@, labels));
            i += 1;
        }
        from_chars(&buf)
    }

    /// The records of the database, each with its path, where `rows` holds
    /// for each row its path and its record as far as it could be read:
    /// nothing if there is no row, or if some row could not be read.
    pub fn get_all_entry(rows: Vec<(String, Option<Downloading>)>) -> (all: Option<
        Vec<(String, Downloading)>,
    >)
        ensures
            all is Some <==> rows@.len() > 0 && forall|i: int|
                0 <= i < rows@.len() ==> (#[trigger] rows@[i]).1 is Some,
            all is Some ==> all->Some_0@.len() == rows@.len() && forall|i: int|
                0 <= i < rows@.len() ==> (#[trigger] all->Some_0@[i]) == (
                    rows@[i].0,
                    rows@[i].1->Some_0,
                ),
    {
        let ghost given = rows@;
        let n = rows.len();
        if n == 0 {
            return None;
        }
        let mut all: Vec<(String, Downloading)> = Vec::new();
        let mut i: usize = 0;
        for row in it: rows
            invariant
                it.seq() == given,
                n == given.len(),
                i == it.index(),
                all@.len() == i,
                forall|j: int| 0 <= j < i ==> (#[trigger] given[j]).1 is Some,
                forall|j: int|
                    0 <= j < i ==> (#[trigger] all@[j]) == (given[j].0, given[j].1->Some_0),
        {
            let (path, record) = row;
            match record {
                Some(entry) => {
                    all.push((path, entry));
                },
                None => {
                    assert(given[i as int].1 is None);
                    return None;
                },
            }
            i += 1;
        }
        Some(all)
    }

    /// Drops the record for `path` from the cache.
    pub fn remove_entry(&mut self, path: &str)
        ensures
            final(self)@ == old(self)@.remove(path@),
    {
        cache_remove(&mut self.cache, path);
    }

    /// The records that have changed since they were last written out,
    /// each with its path, to be written to the database now; in the cache
    /// they count as unchanged from here on. Each changed record comes
    /// once; the order is not fixed.
    pub fn force_flush(&mut self) -> (dirty: Vec<(String, Downloading)>)
        ensures
            final(self)@ == all_clean(old(self)@),
            forall|i: int|
                0 <= i < dirty@.len() ==> old(self)@.contains_key((#[trigger] dirty@[i]).0@)
                    && old(self)@[dirty@[i].0@] == (true, dirty@[i].1@),
            forall|k: Seq<char>|
                old(self)@.contains_key(k) && old(self)@[k].0 ==> exists|i: int|
                    0 <= i < dirty@.len() && (#[trigger] dirty@[i]).0@ == k,
            forall|i: int, j: int|
                0 <= i < j < dirty@.len() ==> (#[trigger] dirty@[i]).0@ != (
                #[trigger] dirty@[j]).0@,
    {
        let keys = cache_keys(&self.cache);
        let ghost before = self@;
        let n = keys.len();
        let mut dirty: Vec<(String, Downloading)> = Vec::new();
        let mut i: usize = 0;
        while i < n
            invariant
                n == keys@.len(),
                0 <= i <= n,
                before == old(self)@,
                forall|k: Seq<char>|
                    before.contains_key(k) <==> exists|j: int|
                        0 <= j < keys@.len() && (#[trigger] keys@[j])@ == k,
                forall|a: int, b: int|
                    0 <= a < b < keys@.len() ==> (#[trigger] keys@[a])@ != (#[trigger] keys@[b])@,
                self@.dom() == before.dom(),
                forall|j: int|
                    0 <= j < i ==> self@[(#[trigger] keys@[j])@] == (false, before[keys@[j]@].1),
                forall|j: int| i <= j < n ==> self@[(#[trigger] keys@[j])@] == before[keys@[j]@],
                forall|d: int|
                    0 <= d < dirty@.len() ==> before.contains_key((#[trigger] dirty@[d]).0@)
                        && before[dirty@[d].0@] == (true, dirty@[d].1@),
                forall|d: int|
                    0 <= d < dirty@.len() ==> exists|j: int|
                        0 <= j < i && keys@[j]@ == (#[trigger] dirty@[d]).0@,
                forall|j: int|
                    0 <= j < i && before[(#[trigger] keys@[j])@].0 ==> exists|d: int|
                        0 <= d < dirty@.len() && (#[trigger] dirty@[d]).0@ == keys@[j]@,
                forall|a: int, b: int|
                    0 <= a < b < dirty@.len() ==> (#[trigger] dirty@[a])@.0 != (
                    #[trigger] dirty@[b])@.0,
            decreases n - i,
        {
            let key = &keys[i];
            assert(before.contains_key(keys@[i as int]@));
            let ghost held = self@;
            match cache_get(&self.cache, key.as_str()) {
                Some((changed, entry)) => {
                    if changed {
                        let copy = entry.clone_record();
                        cache_insert(&mut self.cache, key.clone(), false, copy);
                        let ghost was = dirty@;
                        dirty.push((key.clone(), entry));
                        proof {
                            assert forall|d: int| 0 <= d < dirty@.len() implies exists|j: int|
                                0 <= j < i + 1 && keys@[j]@ == (#[trigger] dirty@[d]).0@ by {
                                if d < was.len() {
                                    assert(dirty@[d] == was[d]);
                                    let j = choose|j: int|
                                        0 <= j < i && keys@[j]@ == was[d].0@;
                                    assert(keys@[j]@ == dirty@[d].0@);
                                } else {
                                    assert(keys@[i as int]@ == dirty@[d].0@);
                                }
                            }
                            assert forall|a: int, b: int|
                                0 <= a < b < dirty@.len() implies (#[trigger] dirty@[a])@.0 != (
                            #[trigger] dirty@[b])@.0 by {
                                if b == was.len() {
                                    assert(dirty@[a] == was[a]);
                                    let j = choose|j: int|
                                        0 <= j < i && keys@[j]@ == was[a].0@;
                                    assert(keys@[j]@ != keys@[i as int]@);
                                } else {
                                    assert(dirty@[a] == was[a]);
                                    assert(dirty@[b] == was[b]);
                                }
                            }
                            assert forall|j: int|
                                0 <= j < i + 1 && before[(#[trigger] keys@[j])@].0 implies exists|
                                d: int,
                            |
                                0 <= d < dirty@.len() && (#[trigger] dirty@[d]).0@
                                    == keys@[j]@ by {
                                if j < i {
                                    let d = choose|d: int|
                                        0 <= d < was.len() && (#[trigger] was[d]).0@ == keys@[j]@;
                                    assert(dirty@[d] == was[d]);
                                } else {
                                    assert(dirty@[was.len() as int].0@ == keys@[j]@);
                                }
                            }
                            assert forall|d: int| 0 <= d < dirty@.len() implies before.contains_key(
                                (#[trigger] dirty@[d]).0@,
                            ) && before[dirty@[d].0@] == (true, dirty@[d].1@) by {
                                if d < was.len() {
                                    assert(dirty@[d] == was[d]);
                                }
                            }
                        }
                    }
                    proof {
                        assert(self@.dom() =~= before.dom());
                        assert forall|j: int| 0 <= j < i + 1 implies self@[(
                        #[trigger] keys@[j])@] == (false, before[keys@[j]@].1) by {
                            if j < i {
                                assert(keys@[j]@ != keys@[i as int]@);
                            }
                        }
                        assert forall|j: int| i + 1 <= j < n implies self@[(#[trigger] keys@[j])@]
                            == before[keys@[j]@] by {
                            assert(keys@[i as int]@ != keys@[j]@);
                        }
                    }
                },
                None => {
                    assert(false);
                },
            }
            i += 1;
        }
        proof {
            assert forall|k: Seq<char>| self@.contains_key(k) implies self@[k] == all_clean(
                before,
            )[k] by {
                let j = choose|j: int| 0 <= j < keys@.len() && (#[trigger] keys@[j])@ == k;
                assert(self@[keys@[j]@] == (false, before[keys@[j]@].1));
            }
            assert(self@ =~= all_clean(before));
            assert forall|k: Seq<char>| before.contains_key(k) && before[k].0 implies exists|
                d: int,
            | 0 <= d < dirty@.len() && (#[trigger] dirty@[d]).0@ == k by {
                let j = choose|j: int| 0 <= j < keys@.len() && (#[trigger] keys@[j])@ == k;
                assert(before[keys@[j]@].0);
            }
        }
        dirty
    }
}

/// The captions of the listing of all records.
#[derive(Debug, Clone)]
pub struct StoreLabels {
    pub version: String,
    pub db_path: String,
    pub file_path: String,
}

/// The line that parts the records in the listing.
pub open spec fn rule() -> Seq<char> {
    "----------------------\n"@
}

/// The head of the listing: with details the version of the layout and,
/// where it is known, the path of the database; then a rule.
pub open spec fn listing_head(
    with_details: bool,
    db_path: Option<Seq<char>>,
    labels: &StoreLabels,
) -> Seq<char> {
    (if with_details {
        crate::downloading::field_line(labels.version@, decimal(CURRENT_DB_VERSION as nat))
            + crate::downloading::optional_line(labels.db_path@, db_path)
    } else {
        Seq::empty()
    }) + rule()
}

/// One record in the listing: its path and its text, every line behind
/// a bar, and a rule.
pub open spec fn listing_row(path: Seq<char>, shown: Seq<char>, labels: &StoreLabels) -> Seq<char> {
    seq!['|', ' '] + crate::downloading::field_line(labels.file_path@, path) + add_prefix_spec(
        shown,
        seq!['|', ' '],
    ) + seq!['\n'] + rule()
}

/// The first `k` records in the listing.
pub open spec fn listing_rows(rows: Seq<(String, String)>, k: int, labels: &StoreLabels) -> Seq<
    char,
>
    decreases k,
{
    if k <= 0 {
        Seq::empty()
    } else {
        listing_rows(rows, k - 1, labels) + listing_row(rows[k - 1].0@, rows[k - 1].1@, labels)
    }
}

impl Downloading {
    /// A copy of the record.
    pub fn clone_record(&self) -> (copy: Downloading)
        ensures
            copy@ == self@,
    {
        let n = self.progress.len();
        let mut progress: Vec<(u64, u64)> = Vec::new();
        let mut i: usize = 0;
        while i < n
            invariant
                n == self.progress@.len(),
                0 <= i <= n,
                progress@ == self.progress@.subrange(0, i as int),
            decreases n - i,
        {
            progress.push(self.progress[i]);
            assert(progress@ =~= self.progress@.subrange(0, i + 1));
            i += 1;
        }
        assert(self.progress@.subrange(0, n as int) =~= self.progress@);
        Downloading {
            url: self.url.clone(),
            file_name: self.file_name.clone(),
            file_size: self.file_size,
            etag: clone_opt(&self.etag),
            last_modified: clone_opt(&self.last_modified),
            progress,
            elapsed: self.elapsed,
        }
    }
}

} // verus!
