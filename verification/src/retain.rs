//! Keeping a chosen part of a list.

use vstd::prelude::*;

verus! {

/// The elements of `s` whose place is marked in `mask`, in their order.
pub open spec fn kept<T>(s: Seq<T>, mask: Seq<bool>) -> Seq<T>
    recommends
        s.len() == mask.len(),
    decreases s.len(),
{
    if s.len() == 0 || mask.len() != s.len() {
        Seq::empty()
    } else if mask.last() {
        kept(s.drop_last(), mask.drop_last()).push(s.last())
    } else {
        kept(s.drop_last(), mask.drop_last())
    }
}

/// How many places `mask` marks.
pub open spec fn count_marked(mask: Seq<bool>) -> nat
    decreases mask.len(),
{
    if mask.len() == 0 {
        0
    } else {
        count_marked(mask.drop_last()) + (if mask.last() {
            1nat
        } else {
            0nat
        })
    }
}

/// As many elements are kept as places are marked.
pub proof fn lemma_kept_len<T>(s: Seq<T>, mask: Seq<bool>)
    requires
        s.len() == mask.len(),
    ensures
        kept(s, mask).len() == count_marked(mask),
        count_marked(mask) <= mask.len(),
    decreases s.len(),
{
    if s.len() > 0 {
        lemma_kept_len(s.drop_last(), mask.drop_last());
    }
}

/// Every kept element stood at a marked place, and every element at a
/// marked place is kept.
pub proof fn lemma_kept_contains<T>(s: Seq<T>, mask: Seq<bool>, x: T)
    requires
        s.len() == mask.len(),
    ensures
        kept(s, mask).contains(x) <==> exists|i: int| 0 <= i < s.len() && mask[i] && s[i] == x,
    decreases s.len(),
{
    if s.len() > 0 {
        let s1 = s.drop_last();
        let m1 = mask.drop_last();
        let k1 = kept(s1, m1);
        lemma_kept_contains(s1, m1, x);
        let k = kept(s, mask);
        if k.contains(x) {
            let j = choose|j: int| 0 <= j < k.len() && k[j] == x;
            if mask.last() && j == k.len() - 1 {
                assert(mask[s.len() - 1] && s[s.len() - 1] == x);
            } else {
                assert(k1[j] == x);
                assert(k1.contains(x));
                let i = choose|i: int| 0 <= i < s1.len() && m1[i] && s1[i] == x;
                assert(mask[i] && s[i] == x);
            }
        }
        if exists|i: int| 0 <= i < s.len() && mask[i] && s[i] == x {
            let i = choose|i: int| 0 <= i < s.len() && mask[i] && s[i] == x;
            if i == s.len() - 1 {
                assert(k.last() == x);
                assert(k[k.len() - 1] == x);
            } else {
                assert(m1[i] && s1[i] == x);
                assert(k1.contains(x));
                let j = choose|j: int| 0 <= j < k1.len() && k1[j] == x;
                assert(k[j] == x);
            }
        }
    }
}

/// The elements of `v` whose place is marked in `mask`, in their order.
pub fn retain_marked<T>(v: Vec<T>, mask: &Vec<bool>) -> (out: Vec<T>)
    requires
        mask@.len() == v@.len(),
    ensures
        out@ == kept(v@, mask@),
{
    let mut out: Vec<T> = Vec::new();
    let ghost all = v@;
    let n = v.len();
    let mut i: usize = 0;
    for e in it: v
        invariant
            it.seq() == all,
            n == all.len(),
            mask@.len() == all.len(),
            i == it.index(),
            out@ == kept(
                all.subrange(0, it.index() as int),
                mask@.subrange(0, it.index() as int),
            ),
    {
        let ghost k = it.index() as int;
        proof {
            assert(all.subrange(0, k + 1).drop_last() =~= all.subrange(0, k));
            assert(mask@.subrange(0, k + 1).drop_last() =~= mask@.subrange(0, k));
        }
        if mask[i] {
            out.push(e);
        }
        i += 1;
    }
    proof {
        assert(all.subrange(0, all.len() as int) =~= all);
        assert(mask@.subrange(0, all.len() as int) =~= mask@);
    }
    out
}

} // verus!
