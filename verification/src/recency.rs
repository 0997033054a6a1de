//! Putting timestamped records newest first, the way a stable sort by descending time does:
//! records with the same time keep the order they came in.

use vstd::prelude::*;

verus! {

/// Where `x` goes into `s`: after the last record, counted from the end, that is at least as
/// new as `x`.
pub open spec fn newest_pos<T>(s: Seq<(i128, T)>, x: (i128, T)) -> int
    decreases s.len(),
{
    if s.len() == 0 {
        0
    } else if s.last().0 >= x.0 {
        s.len() as int
    } else {
        newest_pos(s.drop_last(), x)
    }
}

/// The stable sort of `s` by descending time.
pub open spec fn newest_first<T>(s: Seq<(i128, T)>) -> Seq<(i128, T)>
    decreases s.len(),
{
    if s.len() == 0 {
        s
    } else {
        let t = newest_first(s.drop_last());
        t.insert(newest_pos(t, s.last()), s.last())
    }
}

/// Whether every record is at least as new as every later one.
pub open spec fn by_recency<T>(s: Seq<(i128, T)>) -> bool {
    forall|i: int, j: int| 0 <= i < j < s.len() ==> (#[trigger] s[i]).0 >= (#[trigger] s[j]).0
}

proof fn lemma_newest_pos_bounds<T>(s: Seq<(i128, T)>, x: (i128, T))
    ensures
        0 <= newest_pos(s, x) <= s.len(),
        forall|m: int| newest_pos(s, x) <= m < s.len() ==> (#[trigger] s[m]).0 < x.0,
        newest_pos(s, x) > 0 ==> s[newest_pos(s, x) - 1].0 >= x.0,
    decreases s.len(),
{
    if s.len() > 0 && s.last().0 < x.0 {
        let t = s.drop_last();
        lemma_newest_pos_bounds(t, x);
        assert forall|m: int| newest_pos(s, x) <= m < s.len() implies (#[trigger] s[m]).0 < x.0 by {
            if m < t.len() {
                assert(s[m] == t[m]);
            }
        }
        if newest_pos(s, x) > 0 {
            assert(s[newest_pos(s, x) - 1] == t[newest_pos(s, x) - 1]);
        }
    }
}

/// Newest first, records are ordered by descending time.
pub proof fn lemma_newest_first_ordered<T>(s: Seq<(i128, T)>)
    ensures
        by_recency(newest_first(s)),
        newest_first(s).len() == s.len(),
    decreases s.len(),
{
    if s.len() > 0 {
        let t = newest_first(s.drop_last());
        lemma_newest_first_ordered(s.drop_last());
        let x = s.last();
        lemma_newest_pos_bounds(t, x);
        let k = newest_pos(t, x);
        let r = t.insert(k, x);
        assert forall|i: int, j: int| 0 <= i < j < r.len() implies (#[trigger] r[i]).0 >= (
        #[trigger] r[j]).0 by {
            if j < k {
                assert(r[i] == t[i] && r[j] == t[j]);
            } else if j == k {
                assert(r[i] == t[i]);
                assert(t[i].0 >= t[k - 1].0 || i == k - 1);
            } else if i == k {
                assert(r[j] == t[j - 1]);
            } else if i < k {
                assert(r[i] == t[i] && r[j] == t[j - 1]);
            } else {
                assert(r[i] == t[i - 1] && r[j] == t[j - 1]);
            }
        }
    }
}

/// Newest first holds exactly the records it was given.
pub proof fn lemma_newest_first_permutes<T>(s: Seq<(i128, T)>)
    ensures
        newest_first(s).to_multiset() == s.to_multiset(),
    decreases s.len(),
{
    broadcast use vstd::seq_lib::group_to_multiset_ensures;

    if s.len() > 0 {
        let t = newest_first(s.drop_last());
        lemma_newest_first_permutes(s.drop_last());
        lemma_newest_pos_bounds(t, s.last());
        let k = newest_pos(t, s.last());
        assert(t.insert(k, s.last()) =~= t.subrange(0, k).push(s.last()) + t.subrange(
            k,
            t.len() as int,
        ));
        vstd::seq_lib::lemma_multiset_commutative(
            t.subrange(0, k).push(s.last()),
            t.subrange(k, t.len() as int),
        );
        vstd::seq_lib::lemma_multiset_commutative(t.subrange(0, k), t.subrange(k, t.len() as int));
        assert(t =~= t.subrange(0, k) + t.subrange(k, t.len() as int));
        assert(s =~= s.drop_last().push(s.last()));
    }
}

/// The records, newest first, records with the same time in the order they came in.
pub fn sort_newest_first<T>(items: Vec<(i128, T)>) -> (r: Vec<(i128, T)>)
    ensures
        r@ == newest_first(items@),
{
    let ghost orig = items@;
    let n = items.len();
    assert(orig.len() == n);
    let mut rest = items;
    let mut out: Vec<(i128, T)> = Vec::new();
    let mut i: usize = 0;
    while rest.len() > 0
        invariant
            orig.len() <= usize::MAX,
            i + rest@.len() == orig.len(),
            rest@ == orig.subrange(i as int, orig.len() as int),
            out@ == newest_first(orig.subrange(0, i as int)),
        decreases rest@.len(),
    {
        let x = rest.remove(0);
        proof {
            assert(x == orig[i as int]);
            assert(orig.subrange(0, i + 1).drop_last() =~= orig.subrange(0, i as int));
            assert(orig.subrange(0, i + 1).last() == x);
            assert(rest@ =~= orig.subrange(i + 1, orig.len() as int));
            lemma_newest_pos_bounds(out@, x);
        }
        let mut k: usize = out.len();
        while k > 0 && out[k - 1].0 < x.0
            invariant
                0 <= k <= out@.len(),
                newest_pos(out@, x) <= k,
                forall|m: int| newest_pos(out@, x) <= m < out@.len() ==> (#[trigger] out@[m]).0 < x.0,
                newest_pos(out@, x) > 0 ==> out@[newest_pos(out@, x) - 1].0 >= x.0,
                forall|m: int| k <= m < out@.len() ==> (#[trigger] out@[m]).0 < x.0,
            decreases k,
        {
            k = k - 1;
        }
        proof {
            if k > newest_pos(out@, x) {
                assert(out@[k - 1].0 < x.0);
                assert(false);
            }
        }
        out.insert(k, x);
        i = i + 1;
    }
    proof {
        assert(orig.subrange(0, orig.len() as int) =~= orig);
    }
    out
}

/// The records without their times.
pub fn values_of<T>(items: Vec<(i128, T)>) -> (r: Vec<T>)
    ensures
        r@.len() == items@.len(),
        forall|k: int| 0 <= k < r@.len() ==> #[trigger] r@[k] == items@[k].1,
{
    let ghost orig = items@;
    let mut rest = items;
    let mut out: Vec<T> = Vec::new();
    while rest.len() > 0
        invariant
            out@.len() + rest@.len() == orig.len(),
            rest@ == orig.subrange(out@.len() as int, orig.len() as int),
            forall|k: int| 0 <= k < out@.len() ==> #[trigger] out@[k] == orig[k].1,
        decreases rest@.len(),
    {
        let ghost n: int = out@.len() as int;
        let x = rest.remove(0);
        proof {
            assert(x == orig[n]);
            assert(rest@ =~= orig.subrange(n + 1, orig.len() as int));
        }
        out.push(x.1);
    }
    out
}

} // verus!
