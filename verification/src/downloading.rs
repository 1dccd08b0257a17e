//! The persisted record of one download in flight.

use crate::outside::from_chars;
use crate::text::{
    decimal, opt_text, push_chars, push_decimal, push_str, to_chars, trim_matches,
    trim_matches_spec,
};
use vstd::prelude::*;

verus! {

/// How many progress ranges `display` puts on one line.
pub const DISPLAY_PROGRESS_IN_PER_LINE: usize = 3;

/// What is kept of a download between runs. `progress` holds the written
/// ranges as pairs of start and end offset (end exclusive), `elapsed` the
/// active time of all sessions so far in milliseconds.
#[derive(Debug, Clone, PartialEq, Eq)]
pub struct Downloading {
    pub url: String,
    pub file_name: String,
    pub file_size: u64,
    pub etag: Option<String>,
    pub last_modified: Option<String>,
    pub progress: Vec<(u64, u64)>,
    pub elapsed: u64,
}

/// A record as plain values.
pub struct DownloadingView {
    pub url: Seq<char>,
    pub file_name: Seq<char>,
    pub file_size: u64,
    pub etag: Option<Seq<char>>,
    pub last_modified: Option<Seq<char>>,
    pub progress: Seq<(u64, u64)>,
    pub elapsed: u64,
}

impl View for Downloading {
    type V = DownloadingView;

    open spec fn view(&self) -> DownloadingView {
        DownloadingView {
            url: self.url@,
            file_name: self.file_name@,
            file_size: self.file_size,
            etag: opt_text(self.etag),
            last_modified: opt_text(self.last_modified),
            progress: self.progress@,
            elapsed: self.elapsed,
        }
    }
}

/// The captions that `display` puts before each value.
#[derive(Debug, Clone)]
pub struct DisplayLabels {
    pub file_name: String,
    pub size: String,
    pub elapsed: String,
    pub last_modified: String,
    pub etag: String,
    pub progress: String,
    pub url: String,
}

/// A caption, a colon and a space.
pub open spec fn caption(label: Seq<char>) -> Seq<char> {
    label + seq![':', ' ']
}

/// One line of the listing: caption, value, line feed.
pub open spec fn field_line(label: Seq<char>, value: Seq<char>) -> Seq<char> {
    caption(label) + value + seq!['\n']
}

/// The `i`-th of `n` progress ranges as text: its first and last offset in
/// brackets. Every third range opens a new bulleted line; a space follows
/// each range but the last, and each one that opens a line.
pub open spec fn progress_item(i: int, n: int, e: (u64, u64)) -> Seq<char> {
    (if i % 3 == 0 {
        seq!['\n', '\t', '-', ' ']
    } else {
        Seq::empty()
    }) + seq!['('] + decimal(e.0 as nat) + seq![',', ' '] + decimal((e.1 - 1) as nat) + seq![')']
        + (if i < n - 1 || i % 3 == 0 {
        seq![' ']
    } else {
        Seq::empty()
    })
}

/// The first `k` progress ranges as text.
pub open spec fn progress_list(p: Seq<(u64, u64)>, k: int) -> Seq<char>
    decreases k,
{
    if k <= 0 {
        Seq::empty()
    } else {
        progress_list(p, k - 1) + progress_item(k - 1, p.len() as int, p[k - 1])
    }
}

/// The line for an optional value; nothing if it is absent.
pub open spec fn optional_line(label: Seq<char>, value: Option<Seq<char>>) -> Seq<char> {
    match value {
        Some(v) => field_line(label, v),
        None => Seq::empty(),
    }
}

/// An entity tag without the quotes around it.
pub open spec fn unquoted(etag: Option<Seq<char>>) -> Option<Seq<char>> {
    match etag {
        Some(t) => Some(trim_matches_spec(t, '"')),
        None => None,
    }
}

impl Downloading {
    /// Every progress range ends above offset zero, so that its last
    /// offset can be named.
    pub open spec fn ends_positive(&self) -> bool {
        forall|i: int| 0 <= i < self.progress@.len() ==> (#[trigger] self.progress@[i]).1 > 0
    }

    /// The details block of the listing.
    pub open spec fn details_text(&self, labels: &DisplayLabels) -> Seq<char> {
        optional_line(labels.last_modified@, opt_text(self.last_modified)) + optional_line(
            labels.etag@,
            unquoted(opt_text(self.etag)),
        ) + caption(labels.progress@) + progress_list(
            self.progress@,
            self.progress@.len() as int,
        ) + seq!['\n']
    }

    /// What `display` returns.
    pub open spec fn display_spec(
        &self,
        with_details: bool,
        labels: &DisplayLabels,
        size_text: Seq<char>,
        elapsed_text: Seq<char>,
    ) -> Seq<char> {
        field_line(labels.file_name@, self.file_name@) + field_line(labels.size@, size_text)
            + field_line(labels.elapsed@, elapsed_text) + (if with_details {
            self.details_text(labels)
        } else {
            Seq::empty()
        }) + caption(labels.url@) + self.url@
    }

    /// The record as a listing for people: name, size and elapsed time, one
    /// per line; with `with_details` also the last-modified stamp and the
    /// entity tag (where the record has them) and the progress ranges, three
    /// to a line; at the end the URL, without a line feed after it.
    /// `size_text` and `elapsed_text` are the size and the elapsed time as
    /// the caller wants them shown.
    pub fn display(
        &self,
        with_details: bool,
        labels: &DisplayLabels,
        size_text: &str,
        elapsed_text: &str,
    ) -> (content: String)
        requires
            with_details ==> self.ends_positive(),
        ensures
            content@ == self.display_spec(with_details, labels, size_text@, elapsed_text@),
    {
        let mut buf: Vec<char> = Vec::new();
        push_line(&mut buf, labels.file_name.as_str(), self.file_name.as_str());
        push_line(&mut buf, labels.size.as_str(), size_text);
        push_line(&mut buf, labels.elapsed.as_str(), elapsed_text);
        let ghost head = buf@;
        assert(head =~= field_line(labels.file_name@, self.file_name@) + field_line(
            labels.size@,
            size_text@,
        ) + field_line(labels.elapsed@, elapsed_text@));
        if with_details {
            match &self.last_modified {
                Some(last_modified) => {
                    push_line(&mut buf, labels.last_modified.as_str(), last_modified.as_str());
                },
                None => {
                    assert(buf@ =~= buf@ + Seq::<char>::empty());
                },
            }
            let ghost after_lm = buf@;
            match &self.etag {
                Some(etag) => {
                    let chars = to_chars(etag.as_str());
                    let bare = trim_matches(&chars, '"');
                    push_caption(&mut buf, labels.etag.as_str());
                    push_chars(&mut buf, &bare);
                    buf.push('\n');
                    assert(buf@ =~= after_lm + field_line(labels.etag@, bare@));
                },
                None => {
                    assert(buf@ =~= buf@ + Seq::<char>::empty());
                },
            }
            push_caption(&mut buf, labels.progress.as_str());
            let ghost before_list = buf@;
            let n = self.progress.len();
            let mut i: usize = 0;
            assert(buf@ =~= before_list + progress_list(self.progress@, 0));
            while i < n
                invariant
                    n == self.progress@.len(),
                    0 <= i <= n,
                    self.ends_positive(),
                    buf@ == before_list + progress_list(self.progress@, i as int),
                decreases n - i,
            {
                let (start, end) = self.progress[i];
                let ghost before_item = buf@;
                if i % DISPLAY_PROGRESS_IN_PER_LINE == 0 {
                    buf.push('\n');
                    buf.push('\t');
                    buf.push('-');
                    buf.push(' ');
                }
                buf.push('(');
                push_decimal(&mut buf, start);
                buf.push(',');
                buf.push(' ');
                push_decimal(&mut buf, end - 1);
                buf.push(')');
                if i < n - 1 || i % DISPLAY_PROGRESS_IN_PER_LINE == 0 {
                    buf.push(' ');
                }
                assert(buf@ =~= before_item + progress_item(
                    i as int,
                    n as int,
                    self.progress@[i as int],
                ));
                assert(buf@ =~= before_list + progress_list(self.progress@, i + 1));
                i += 1;
            }
            buf.push('\n');
            assert(buf@ =~= head + self.details_text(labels));
        } else {
            assert(buf@ =~= head + Seq::<char>::empty());
        }
        push_caption(&mut buf, labels.url.as_str());
        push_str(&mut buf, self.url.as_str());
        assert(buf@ =~= self.display_spec(with_details, labels, size_text@, elapsed_text@));
        from_chars(&buf)
    }
}

/// Appends a caption to `buf`.
fn push_caption(buf: &mut Vec<char>, label: &str)
    ensures
        final(buf)@ == old(buf)@ + caption(label@),
{
    push_str(buf, label);
    buf.push(':');
    buf.push(' ');
    assert(buf@ =~= old(buf)@ + caption(label@));
}

/// Appends a caption, a value and a line feed to `buf`.
fn push_line(buf: &mut Vec<char>, label: &str, value: &str)
    ensures
        final(buf)@ == old(buf)@ + field_line(label@, value@),
{
    push_caption(buf, label);
    push_str(buf, value);
    buf.push('\n');
    assert(buf@ =~= old(buf)@ + field_line(label@, value@));
}

} // verus!
