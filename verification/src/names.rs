//! File names: what may stand in one, the name of a download in flight,
//! and the names that are tried when the final name is taken.

use crate::download::part_suffix;
use crate::outside::from_chars;
use crate::text::{decimal, push_decimal, push_str, slice_chars, to_chars};
use vstd::prelude::*;

verus! {

/// The longest file name, in characters.
pub const MAX_NAME_LEN: usize = 255;

/// A character that cannot stand in a file name on every system: a
/// control character, or one of `< > : " / \ | ? *`.
pub open spec fn is_reserved(c: char) -> bool {
    c < ' ' || c == '\x7f' || c == '<' || c == '>' || c == ':' || c == '"' || c == '/' || c
        == '\\' || c == '|' || c == '?' || c == '*'
}

/// `s` without its reserved characters.
pub open spec fn stripped(s: Seq<char>) -> Seq<char>
    decreases s.len(),
{
    if s.len() == 0 {
        Seq::empty()
    } else if is_reserved(s.last()) {
        stripped(s.drop_last())
    } else {
        stripped(s.drop_last()).push(s.last())
    }
}

/// The first `limit` characters of `s`, or all of it if it is shorter.
pub open spec fn capped(s: Seq<char>, limit: int) -> Seq<char> {
    if s.len() > limit {
        s.subrange(0, limit)
    } else {
        s
    }
}

/// What `sanitize` returns.
pub open spec fn sanitized(name: Seq<char>) -> Seq<char> {
    capped(stripped(name), MAX_NAME_LEN as int)
}

/// A name that can be used for a file: `name` without the characters that
/// are reserved on some system, cut to 255 characters.
pub fn sanitize(name: &str) -> (clean: String)
    ensures
        clean@ == sanitized(name@),
{
    let chars = to_chars(name);
    let n = chars.len();
    let mut out: Vec<char> = Vec::new();
    let mut i: usize = 0;
    assert(chars@.subrange(0, 0) =~= Seq::<char>::empty());
    while i < n
        invariant
            n == chars@.len(),
            0 <= i <= n,
            out@ == stripped(chars@.subrange(0, i as int)),
        decreases n - i,
    {
        let c = chars[i];
        proof {
            let t = chars@.subrange(0, i + 1);
            assert(t.drop_last() =~= chars@.subrange(0, i as int));
            assert(t.last() == c);
        }
        let reserved = c < ' ' || c == '\x7f' || c == '<' || c == '>' || c == ':' || c == '"' || c
            == '/' || c == '\\' || c == '|' || c == '?' || c == '*';
        if !reserved {
            out.push(c);
        }
        i += 1;
    }
    assert(chars@.subrange(0, n as int) =~= chars@);
    if out.len() > MAX_NAME_LEN {
        let cut = slice_chars(&out, 0, MAX_NAME_LEN);
        from_chars(&cut)
    } else {
        from_chars(&out)
    }
}

/// `s` ends with `suffix`.
pub open spec fn has_suffix(s: Seq<char>, suffix: Seq<char>) -> bool {
    suffix.len() <= s.len() && s.subrange(s.len() - suffix.len(), s.len() as int) == suffix
}

/// The name that a download in flight gets when it is complete: its name
/// without the suffix for downloads in flight. A name without that suffix
/// stays as it is.
pub fn final_name(part_name: &str) -> (name: String)
    ensures
        name@ == (if has_suffix(part_name@, part_suffix()) {
            part_name@.subrange(0, part_name@.len() - part_suffix().len())
        } else {
            part_name@
        }),
{
    let chars = to_chars(part_name);
    let n = chars.len();
    if n >= 7 {
        let tail = slice_chars(&chars, n - 7, n);
        let is_part = tail[0] == '.' && tail[1] == 'f' && tail[2] == 'd' && tail[3] == 'p'
            && tail[4] == 'a' && tail[5] == 'r' && tail[6] == 't';
        proof {
            if is_part {
                assert(tail@ =~= part_suffix());
            } else {
                assert(tail@ != part_suffix()) by {
                    if tail@ == part_suffix() {
                        assert(tail@[0] == part_suffix()[0]);
                        assert(tail@[1] == part_suffix()[1]);
                        assert(tail@[2] == part_suffix()[2]);
                        assert(tail@[3] == part_suffix()[3]);
                        assert(tail@[4] == part_suffix()[4]);
                        assert(tail@[5] == part_suffix()[5]);
                        assert(tail@[6] == part_suffix()[6]);
                    }
                }
            }
        }
        if is_part {
            let head = slice_chars(&chars, 0, n - 7);
            return from_chars(&head);
        }
    }
    from_chars(&chars)
}

/// The `attempt`-th name to try for a file with the stem `stem` and the
/// extension `ext`: the name itself at first, then the stem with the
/// number of the attempt in brackets behind it.
pub open spec fn candidate(stem: Seq<char>, ext: Option<Seq<char>>, attempt: u64) -> Seq<char> {
    stem + (if attempt == 0 {
        Seq::empty()
    } else {
        seq![' ', '('] + decimal(attempt as nat) + seq![')']
    }) + (match ext {
        Some(e) => seq!['.'] + e,
        None => Seq::empty(),
    })
}

/// The name to try at the `attempt`-th attempt to find a free name: the
/// first attempt is the name itself, each later one carries its number.
pub fn candidate_name(stem: &str, ext: Option<&str>, attempt: u64) -> (name: String)
    ensures
        name@ == candidate(
            stem@,
            match ext {
                Some(e) => Some(e@),
                None => None,
            },
            attempt,
        ),
{
    let mut buf: Vec<char> = Vec::new();
    push_str(&mut buf, stem);
    if attempt > 0 {
        buf.push(' ');
        buf.push('(');
        push_decimal(&mut buf, attempt);
        buf.push(')');
    }
    let ghost mid = buf@;
    assert(mid =~= stem@ + (if attempt == 0 {
        Seq::empty()
    } else {
        seq![' ', '('] + decimal(attempt as nat) + seq![')']
    }));
    match ext {
        Some(e) => {
            buf.push('.');
            push_str(&mut buf, e);
            assert(buf@ =~= mid + (seq!['.'] + e@));
        },
        None => {
            assert(buf@ =~= mid + Seq::<char>::empty());
        },
    }
    from_chars(&buf)
}

} // verus!
