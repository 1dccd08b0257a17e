//! Line-wise text formatting.

use crate::outside::from_chars;
use crate::text::{push_chars, to_chars};
use vstd::prelude::*;

verus! {

/// Index of the first line feed in `s`, or the length of `s` if it has none.
pub open spec fn first_newline(s: Seq<char>) -> int
    decreases s.len(),
{
    if s.len() == 0 {
        0
    } else if s[0] == '\n' {
        0
    } else {
        1 + first_newline(s.drop_first())
    }
}

/// A line without the carriage return that stood before its line feed.
pub open spec fn strip_cr(line: Seq<char>) -> Seq<char> {
    if line.len() > 0 && line.last() == '\r' {
        line.drop_last()
    } else {
        line
    }
}

/// The lines of `s`: the stretches between line feeds, each without its
/// terminator (a line feed, or a carriage return and a line feed). A final
/// line that has no terminator is kept as it is; after a final terminator
/// no empty line follows.
pub open spec fn lines_of(s: Seq<char>) -> Seq<Seq<char>>
    decreases s.len(),
{
    if s.len() == 0 {
        Seq::empty()
    } else {
        let k = first_newline(s);
        if 0 <= k < s.len() {
            seq![strip_cr(s.subrange(0, k))] + lines_of(s.subrange(k + 1, s.len() as int))
        } else {
            seq![s]
        }
    }
}

/// Each line with `prefix` in front, the lines joined by line feeds.
pub open spec fn prefixed(lines: Seq<Seq<char>>, prefix: Seq<char>) -> Seq<char>
    decreases lines.len(),
{
    if lines.len() == 0 {
        Seq::empty()
    } else if lines.len() == 1 {
        prefix + lines[0]
    } else {
        prefixed(lines.drop_last(), prefix) + seq!['\n'] + prefix + lines.last()
    }
}

/// What `add_prefix_to_lines` returns.
pub open spec fn add_prefix_spec(s: Seq<char>, prefix: Seq<char>) -> Seq<char> {
    prefixed(lines_of(s), prefix) + (if s.len() > 0 && s.last() == '\n' {
        seq!['\n']
    } else {
        Seq::empty()
    })
}

/// The texts of a list of character buffers.
pub open spec fn line_views(v: Seq<Vec<char>>) -> Seq<Seq<char>> {
    Seq::new(v.len(), |i: int| v[i]@)
}

/// The first line feed is where a line feed stands with none before it.
pub proof fn lemma_first_newline(t: Seq<char>, k: int)
    requires
        0 <= k <= t.len(),
        forall|j: int| 0 <= j < k ==> t[j] != '\n',
        k < t.len() ==> t[k] == '\n',
    ensures
        first_newline(t) == k,
    decreases t.len(),
{
    if t.len() > 0 && k > 0 {
        let u = t.drop_first();
        assert forall|j: int| 0 <= j < k - 1 implies u[j] != '\n' by {
            assert(u[j] == t[j + 1]);
        }
        if k - 1 < u.len() {
            assert(u[k - 1] == t[k]);
        }
        lemma_first_newline(u, k - 1);
    }
}

/// The lines of `s`, each as a buffer of its own.
pub fn split_lines(s: &Vec<char>) -> (out: Vec<Vec<char>>)
    ensures
        line_views(out@) == lines_of(s@),
{
    let n = s.len();
    let mut out: Vec<Vec<char>> = Vec::new();
    let mut pos: usize = 0;
    proof {
        assert(s@.subrange(0, n as int) =~= s@);
        assert(line_views(out@) + lines_of(s@) =~= lines_of(s@));
    }
    while pos < n
        invariant
            n == s@.len(),
            0 <= pos <= n,
            lines_of(s@) == line_views(out@) + lines_of(s@.subrange(pos as int, n as int)),
        decreases n - pos,
    {
        let ghost rest = s@.subrange(pos as int, n as int);
        let mut k: usize = pos;
        let mut line: Vec<char> = Vec::new();
        while k < n && s[k] != '\n'
            invariant
                n == s@.len(),
                pos <= k <= n,
                forall|j: int| pos <= j < k ==> s@[j] != '\n',
                line@ == s@.subrange(pos as int, k as int),
            decreases n - k,
        {
            line.push(s[k]);
            assert(line@ =~= s@.subrange(pos as int, k + 1));
            k += 1;
        }
        proof {
            assert forall|j: int| 0 <= j < k - pos implies rest[j] != '\n' by {
                assert(rest[j] == s@[pos + j]);
            }
            lemma_first_newline(rest, k - pos);
            assert(rest.subrange(0, k - pos) =~= s@.subrange(pos as int, k as int));
        }
        let ghost before = out@;
        if k < n {
            let m = line.len();
            if m > 0 && line[m - 1] == '\r' {
                line.pop();
            }
            assert(line@ =~= strip_cr(rest.subrange(0, k - pos)));
            out.push(line);
            proof {
                assert(rest.subrange(k - pos + 1, rest.len() as int) =~= s@.subrange(
                    k + 1,
                    n as int,
                ));
                assert(line_views(out@) =~= line_views(before).push(line@));
                assert(line_views(before) + (seq![line@] + lines_of(
                    s@.subrange(k + 1, n as int),
                )) =~= line_views(out@) + lines_of(s@.subrange(k + 1, n as int)));
            }
            pos = k + 1;
        } else {
            assert(line@ =~= rest);
            out.push(line);
            proof {
                assert(line_views(out@) =~= line_views(before).push(line@));
                assert(s@.subrange(n as int, n as int) =~= Seq::<char>::empty());
                assert(line_views(before) + seq![line@] =~= line_views(out@) + lines_of(
                    s@.subrange(n as int, n as int),
                ));
            }
            pos = n;
        }
    }
    assert(line_views(out@) + lines_of(s@.subrange(n as int, n as int)) =~= line_views(out@));
    out
}

/// Puts `prefix` in front of every line of `s`. The lines are joined by
/// line feeds, a carriage return before a line feed is dropped, and the
/// result ends in a line feed exactly if `s` does.
pub fn add_prefix_to_lines(s: &str, prefix: &str) -> (result: String)
    ensures
        result@ == add_prefix_spec(s@, prefix@),
{
    let text = to_chars(s);
    let pre = to_chars(prefix);
    let lines = split_lines(&text);
    let n = lines.len();
    let mut buf: Vec<char> = Vec::new();
    let mut i: usize = 0;
    let ghost all = line_views(lines@);
    assert(all.subrange(0, 0) =~= Seq::<Seq<char>>::empty());
    while i < n
        invariant
            n == lines@.len(),
            0 <= i <= n,
            all == line_views(lines@),
            pre@ == prefix@,
            buf@ == prefixed(all.subrange(0, i as int), prefix@),
        decreases n - i,
    {
        proof {
            let cur = all.subrange(0, i + 1);
            assert(cur.drop_last() =~= all.subrange(0, i as int));
            assert(cur.last() == lines@[i as int]@);
            if i == 0 {
                assert(Seq::<char>::empty() + prefix@ + cur[0] =~= prefix@ + cur[0]);
            }
        }
        if i > 0 {
            buf.push('\n');
        }
        push_chars(&mut buf, &pre);
        push_chars(&mut buf, &lines[i]);
        proof {
            let cur = all.subrange(0, i + 1);
            if i > 0 {
                assert(buf@ =~= prefixed(cur.drop_last(), prefix@) + seq!['\n'] + prefix@
                    + cur.last());
            } else {
                assert(buf@ =~= prefix@ + cur[0]);
            }
        }
        i += 1;
    }
    assert(all.subrange(0, n as int) =~= all);
    let m = text.len();
    if m > 0 && text[m - 1] == '\n' {
        buf.push('\n');
        assert(buf@ =~= add_prefix_spec(s@, prefix@));
    } else {
        assert(buf@ =~= add_prefix_spec(s@, prefix@));
    }
    from_chars(&buf)
}

} // verus!
