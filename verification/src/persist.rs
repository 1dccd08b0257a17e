//! The table of downloads in flight, as it is kept in one file: a version
//! number and a list of entries, at most one for each target path.

use crate::progress::ProgressEntry;
use crate::retain::{kept, lemma_kept_contains, lemma_kept_len, retain_marked};
use vstd::prelude::*;

verus! {

/// The version of the table's layout.
pub const DB_VERSION: u16 = 1;

/// One download in flight. `file_path` is the target path as bytes and
/// identifies the entry.
#[derive(Debug, Clone, PartialEq, Eq)]
pub struct DatabaseEntry {
    pub file_path: Vec<u8>,
    pub file_name: String,
    pub file_size: u64,
    pub etag: Option<String>,
    pub last_modified: Option<String>,
    pub progress: Vec<ProgressEntry>,
    pub elapsed: u64,
    pub url: String,
}

/// The table as it is stored: the version and the entries.
#[derive(Debug, Clone, PartialEq, Eq)]
pub struct DatabaseInner(pub u16, pub Vec<DatabaseEntry>);

/// The table in memory.
#[derive(Debug, Clone)]
pub struct Database {
    pub inner: DatabaseInner,
}

/// An entry is finished if its progress is the one range from the first
/// byte to the file's size.
pub open spec fn is_finished(e: DatabaseEntry) -> bool {
    e.progress@ == seq![ProgressEntry { start: 0, end: e.file_size }]
}

/// For each entry, whether its path is another one than `path`.
pub open spec fn other_paths(entries: Seq<DatabaseEntry>, path: Seq<u8>) -> Seq<bool> {
    Seq::new(entries.len(), |i: int| entries[i].file_path@ != path)
}

/// For each entry, whether it is unfinished.
pub open spec fn unfinished(entries: Seq<DatabaseEntry>) -> Seq<bool> {
    Seq::new(entries.len(), |i: int| !is_finished(entries[i]))
}

/// The place of the first entry for `path`, or the number of entries if
/// there is none.
pub open spec fn first_for(entries: Seq<DatabaseEntry>, path: Seq<u8>) -> int
    decreases entries.len(),
{
    if entries.len() == 0 {
        0
    } else if entries[0].file_path@ == path {
        0
    } else {
        1 + first_for(entries.drop_first(), path)
    }
}

/// Some entry is for `path`.
pub open spec fn has_path(entries: Seq<DatabaseEntry>, path: Seq<u8>) -> bool {
    exists|i: int| 0 <= i < entries.len() && (#[trigger] entries[i]).file_path@ == path
}

/// No two entries are for the same path.
pub open spec fn paths_distinct(entries: Seq<DatabaseEntry>) -> bool {
    forall|i: int, j: int|
        0 <= i < j < entries.len() ==> (#[trigger] entries[i]).file_path@ != (
        #[trigger] entries[j]).file_path@
}

/// The first entry for a path stands where no earlier entry is for it.
pub proof fn lemma_first_for(entries: Seq<DatabaseEntry>, path: Seq<u8>, k: int)
    requires
        0 <= k <= entries.len(),
        forall|j: int| 0 <= j < k ==> (#[trigger] entries[j]).file_path@ != path,
        k < entries.len() ==> entries[k].file_path@ == path,
    ensures
        first_for(entries, path) == k,
        has_path(entries, path) <==> k < entries.len(),
    decreases entries.len(),
{
    if k > 0 {
        let rest = entries.drop_first();
        assert forall|j: int| 0 <= j < k - 1 implies (#[trigger] rest[j]).file_path@ != path by {
            assert(rest[j] == entries[j + 1]);
        }
        if k - 1 < rest.len() {
            assert(rest[k - 1] == entries[k]);
        }
        lemma_first_for(rest, path, k - 1);
        assert(entries[0].file_path@ != path);
    }
    if k < entries.len() {
        assert(entries[k].file_path@ == path);
    }
}

/// Keeping a part of a table with distinct paths leaves the paths
/// distinct, and every entry kept stood at a marked place.
pub proof fn lemma_kept_distinct(entries: Seq<DatabaseEntry>, mask: Seq<bool>)
    requires
        entries.len() == mask.len(),
        paths_distinct(entries),
    ensures
        paths_distinct(kept(entries, mask)),
    decreases entries.len(),
{
    if entries.len() > 0 {
        let e1 = entries.drop_last();
        let m1 = mask.drop_last();
        assert forall|i: int, j: int| 0 <= i < j < e1.len() implies (#[trigger] e1[i]).file_path@
            != (#[trigger] e1[j]).file_path@ by {
            assert(e1[i] == entries[i]);
            assert(e1[j] == entries[j]);
        }
        lemma_kept_distinct(e1, m1);
        let k1 = kept(e1, m1);
        let k = kept(entries, mask);
        if mask.last() {
            assert forall|i: int, j: int| 0 <= i < j < k.len() implies (#[trigger] k[i]).file_path@
                != (#[trigger] k[j]).file_path@ by {
                if j == k.len() - 1 {
                    assert(k1[i] == k[i]);
                    assert(k1.contains(k[i]));
                    lemma_kept_contains(e1, m1, k[i]);
                    let a = choose|a: int| 0 <= a < e1.len() && m1[a] && e1[a] == k[i];
                    assert(entries[a] == e1[a]);
                    assert(entries[a].file_path@ != entries[entries.len() - 1].file_path@);
                } else {
                    assert(k1[i] == k[i]);
                    assert(k1[j] == k[j]);
                }
            }
        }
    }
}

/// What is kept of a table when the entries for `path` are left out has no
/// entry for `path`.
pub proof fn lemma_kept_other_paths(entries: Seq<DatabaseEntry>, path: Seq<u8>)
    ensures
        !has_path(kept(entries, other_paths(entries, path)), path),
{
    let mask = other_paths(entries, path);
    let k = kept(entries, mask);
    if has_path(k, path) {
        let j = choose|j: int| 0 <= j < k.len() && (#[trigger] k[j]).file_path@ == path;
        assert(k.contains(k[j]));
        lemma_kept_contains(entries, mask, k[j]);
        let a = choose|a: int| 0 <= a < entries.len() && mask[a] && entries[a] == k[j];
        assert(false);
    }
}

/// Whether two byte strings are the same.
pub fn bytes_eq(a: &Vec<u8>, b: &Vec<u8>) -> (same: bool)
    ensures
        same == (a@ == b@),
{
    if a.len() != b.len() {
        return false;
    }
    let n = a.len();
    let mut i: usize = 0;
    while i < n
        invariant
            n == a@.len(),
            n == b@.len(),
            0 <= i <= n,
            forall|j: int| 0 <= j < i ==> a@[j] == b@[j],
        decreases n - i,
    {
        if a[i] != b[i] {
            return false;
        }
        i += 1;
    }
    assert(a@ =~= b@);
    true
}

impl DatabaseEntry {
    /// Whether the entry's progress is the one range `[0, file_size)`.
    pub fn finished(&self) -> (done: bool)
        ensures
            done == is_finished(*self),
    {
        let done = self.progress.len() == 1 && self.progress[0].start == 0 && self.progress[0].end
            == self.file_size;
        proof {
            let full = seq![ProgressEntry { start: 0, end: self.file_size }];
            if done {
                assert(self.progress@ =~= full);
            }
            if self.progress@ == full {
                assert(self.progress@[0] == full[0]);
            }
        }
        done
    }
}

impl Database {
    /// The entries of the table.
    pub open spec fn entries(&self) -> Seq<DatabaseEntry> {
        self.inner.1@
    }

    /// The invariant that the table's own operations keep: no two entries
    /// are for the same path.
    pub open spec fn wf(&self) -> bool {
        paths_distinct(self.entries())
    }

    /// An empty table of the current version.
    pub fn new() -> (db: Self)
        ensures
            db.inner.0 == DB_VERSION,
            db.entries() == Seq::<DatabaseEntry>::empty(),
            db.wf(),
    {
        Database { inner: DatabaseInner(DB_VERSION, Vec::new()) }
    }

    /// The table that was read from a file as `stored`, where `exists` says
    /// of each entry whether its target is still on disk: `None` if the
    /// table has another version than the current one; else the table with
    /// the entries whose targets exist.
    pub fn from_file(stored: DatabaseInner, exists: &Vec<bool>) -> (db: Option<Self>)
        requires
            exists@.len() == stored.1@.len(),
        ensures
            stored.0 != DB_VERSION ==> db is None,
            stored.0 == DB_VERSION ==> db is Some && db->Some_0.inner.0 == DB_VERSION
                && db->Some_0.entries() == kept(stored.1@, exists@),
            db is Some && paths_distinct(stored.1@) ==> db->Some_0.wf(),
    {
        proof {
            if paths_distinct(stored.1@) {
                lemma_kept_distinct(stored.1@, exists@);
            }
        }
        let DatabaseInner(version, entries) = stored;
        if version != DB_VERSION {
            return None;
        }
        let entries = retain_marked(entries, exists);
        Some(Database { inner: DatabaseInner(version, entries) })
    }

    /// Puts a new entry for `file_path` in the table, with no progress and
    /// no time spent, in place of any entry that was there for this path.
    pub fn init_entry(
        &mut self,
        file_path: Vec<u8>,
        file_name: String,
        file_size: u64,
        etag: Option<String>,
        last_modified: Option<String>,
        url: String,
    )
        ensures
            final(self).inner.0 == old(self).inner.0,
            final(self).entries().len() > 0,
            final(self).entries().drop_last() == kept(
                old(self).entries(),
                other_paths(old(self).entries(), file_path@),
            ),
            final(self).entries().last() == (DatabaseEntry {
                file_path,
                file_name,
                file_size,
                etag,
                last_modified,
                progress: final(self).entries().last().progress,
                elapsed: 0,
                url,
            }),
            final(self).entries().last().progress@ == Seq::<ProgressEntry>::empty(),
            old(self).wf() ==> final(self).wf(),
    {
        let n = self.inner.1.len();
        let mut mask: Vec<bool> = Vec::new();
        let mut i: usize = 0;
        while i < n
            invariant
                n == self.inner.1@.len(),
                *self == *old(self),
                0 <= i <= n,
                mask@ == other_paths(self.entries(), file_path@).subrange(0, i as int),
            decreases n - i,
        {
            let differs = !bytes_eq(&self.inner.1[i].file_path, &file_path);
            mask.push(differs);
            assert(mask@ =~= other_paths(self.entries(), file_path@).subrange(0, i + 1));
            i += 1;
        }
        assert(mask@ =~= other_paths(self.entries(), file_path@));
        let mut entries: Vec<DatabaseEntry> = Vec::new();
        core::mem::swap(&mut entries, &mut self.inner.1);
        let mut entries = retain_marked(entries, &mask);
        let ghost before = entries@;
        entries.push(
            DatabaseEntry {
                file_path,
                file_name,
                file_size,
                etag,
                last_modified,
                progress: Vec::new(),
                elapsed: 0,
                url,
            },
        );
        assert(entries@.drop_last() =~= before);
        proof {
            let was = old(self).entries();
            lemma_kept_other_paths(was, file_path@);
            if old(self).wf() {
                lemma_kept_distinct(was, other_paths(was, file_path@));
                assert forall|i: int, j: int| 0 <= i < j < entries@.len() implies (
                #[trigger] entries@[i]).file_path@ != (#[trigger] entries@[j]).file_path@ by {
                    assert(entries@[i] == before[i]);
                    if j < before.len() {
                        assert(entries@[j] == before[j]);
                    }
                }
            }
        }
        self.inner.1 = entries;
    }

    /// The first entry for `file_path`, if there is one.
    pub fn get_entry(&self, file_path: &Vec<u8>) -> (entry: Option<&DatabaseEntry>)
        ensures
            entry is Some <==> has_path(self.entries(), file_path@),
            entry is Some ==> *entry->Some_0 == self.entries()[first_for(
                self.entries(),
                file_path@,
            )],
    {
        match self.position(file_path) {
            Some(i) => Some(&self.inner.1[i]),
            None => None,
        }
    }

    /// The place of the first entry for `file_path`.
    pub fn position(&self, file_path: &Vec<u8>) -> (pos: Option<usize>)
        ensures
            pos is Some <==> has_path(self.entries(), file_path@),
            pos is Some ==> pos->Some_0 == first_for(self.entries(), file_path@)
                && pos->Some_0 < self.entries().len(),
    {
        let n = self.inner.1.len();
        let mut i: usize = 0;
        while i < n
            invariant
                n == self.entries().len(),
                0 <= i <= n,
                forall|j: int| 0 <= j < i ==> (#[trigger] self.entries()[j]).file_path@
                    != file_path@,
            decreases n - i,
        {
            if bytes_eq(&self.inner.1[i].file_path, file_path) {
                proof {
                    lemma_first_for(self.entries(), file_path@, i as int);
                }
                return Some(i);
            }
            i += 1;
        }
        proof {
            lemma_first_for(self.entries(), file_path@, n as int);
        }
        None
    }

    /// Sets progress and time spent of the first entry for `file_path`,
    /// which has to be there.
    pub fn update_entry(&mut self, file_path: &Vec<u8>, progress: Vec<ProgressEntry>, elapsed: u64)
        requires
            has_path(old(self).entries(), file_path@),
        ensures
            final(self).inner.0 == old(self).inner.0,
            final(self).entries().len() == old(self).entries().len(),
            forall|i: int|
                0 <= i < old(self).entries().len() && i != first_for(
                    old(self).entries(),
                    file_path@,
                ) ==> final(self).entries()[i] == old(self).entries()[i],
            ({
                let k = first_for(old(self).entries(), file_path@);
                let was = old(self).entries()[k];
                final(self).entries()[k] == (DatabaseEntry { progress, elapsed, ..was })
            }),
            old(self).wf() ==> final(self).wf(),
    {
        let pos = self.position(file_path);
        let k = pos.unwrap();
        self.inner.1[k].progress = progress;
        self.inner.1[k].elapsed = elapsed;
    }

    /// Takes the finished entries out of the table and says how many they
    /// were.
    pub fn clean_finished(&mut self) -> (removed: usize)
        ensures
            final(self).inner.0 == old(self).inner.0,
            final(self).entries() == kept(old(self).entries(), unfinished(old(self).entries())),
            removed == old(self).entries().len() - final(self).entries().len(),
            old(self).wf() ==> final(self).wf(),
    {
        proof {
            if old(self).wf() {
                lemma_kept_distinct(old(self).entries(), unfinished(old(self).entries()));
            }
        }
        let n = self.inner.1.len();
        let mut mask: Vec<bool> = Vec::new();
        let mut i: usize = 0;
        while i < n
            invariant
                n == self.inner.1@.len(),
                *self == *old(self),
                0 <= i <= n,
                mask@ == unfinished(self.entries()).subrange(0, i as int),
            decreases n - i,
        {
            let keep = !self.inner.1[i].finished();
            mask.push(keep);
            assert(mask@ =~= unfinished(self.entries()).subrange(0, i + 1));
            i += 1;
        }
        assert(mask@ =~= unfinished(self.entries()));
        let mut entries: Vec<DatabaseEntry> = Vec::new();
        core::mem::swap(&mut entries, &mut self.inner.1);
        proof {
            lemma_kept_len(entries@, mask@);
        }
        let entries = retain_marked(entries, &mask);
        let removed = n - entries.len();
        self.inner.1 = entries;
        removed
    }
}

} // verus!
