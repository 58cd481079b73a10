//! Stable ordering of (vertex id, value) pairs by vertex id.

use vstd::prelude::*;

verus! {

broadcast use vstd::seq_lib::group_to_multiset_ensures;

/// The pairs are in non-decreasing order of their ids.
pub open spec fn sorted_by_id<V>(s: Seq<(u64, V)>) -> bool {
    forall|i: int, j: int| 0 <= i < j < s.len() ==> #[trigger] s[i].0 <= #[trigger] s[j].0
}

/// `x` placed in front of the first pair whose id is not below its own.
pub open spec fn insert_by_id<V>(t: Seq<(u64, V)>, x: (u64, V)) -> Seq<(u64, V)>
    decreases t.len(),
{
    if t.len() == 0 {
        seq![x]
    } else if t[0].0 >= x.0 {
        seq![x] + t
    } else {
        seq![t[0]] + insert_by_id(t.drop_first(), x)
    }
}

/// The pairs stably sorted by id: equal ids keep their relative order.
pub open spec fn sort_pairs_by_id<V>(s: Seq<(u64, V)>) -> Seq<(u64, V)>
    decreases s.len(),
{
    if s.len() == 0 {
        Seq::empty()
    } else {
        insert_by_id(sort_pairs_by_id(s.drop_first()), s[0])
    }
}

proof fn lemma_insert_by_id_at<V>(t: Seq<(u64, V)>, x: (u64, V), pos: int)
    requires
        0 <= pos <= t.len(),
        forall|i: int| 0 <= i < pos ==> #[trigger] t[i].0 < x.0,
        pos < t.len() ==> t[pos].0 >= x.0,
    ensures
        insert_by_id(t, x) == t.insert(pos, x),
    decreases pos,
{
    if t.len() == 0 {
        assert(t.insert(pos, x) =~= seq![x]);
    } else if pos == 0 {
        assert(t.insert(0, x) =~= seq![x] + t);
    } else {
        let d = t.drop_first();
        assert forall|i: int| 0 <= i < pos - 1 implies #[trigger] d[i].0 < x.0 by {
            assert(d[i] == t[i + 1]);
        }
        if pos < t.len() {
            assert(d[pos - 1] == t[pos]);
        }
        lemma_insert_by_id_at(d, x, pos - 1);
        assert(seq![t[0]] + d.insert(pos - 1, x) =~= t.insert(pos, x));
    }
}

proof fn lemma_first_not_below<V>(t: Seq<(u64, V)>, key: u64, from: int) -> (pos: int)
    requires
        0 <= from <= t.len(),
        forall|i: int| 0 <= i < from ==> #[trigger] t[i].0 < key,
    ensures
        from <= pos <= t.len(),
        forall|i: int| 0 <= i < pos ==> #[trigger] t[i].0 < key,
        pos < t.len() ==> t[pos].0 >= key,
    decreases t.len() - from,
{
    if from == t.len() || t[from].0 >= key {
        from
    } else {
        lemma_first_not_below(t, key, from + 1)
    }
}

/// A stably sorted sequence is sorted and holds the same pairs, each as
/// often.
pub proof fn lemma_sort_pairs_by_id<V>(s: Seq<(u64, V)>)
    ensures
        sorted_by_id(sort_pairs_by_id(s)),
        sort_pairs_by_id(s).to_multiset() == s.to_multiset(),
    decreases s.len(),
{
    if s.len() > 0 {
        let d = s.drop_first();
        lemma_sort_pairs_by_id(d);
        let t = sort_pairs_by_id(d);
        let x = s[0];
        let pos = lemma_first_not_below(t, x.0, 0);
        lemma_insert_by_id_at(t, x, pos);
        let r = t.insert(pos, x);
        vstd::seq_lib::to_multiset_insert(t, pos, x);
        assert(s =~= seq![x] + d);
        assert(s.to_multiset() =~= d.to_multiset().insert(x)) by {
            assert(s =~= d.insert(0, x));
            vstd::seq_lib::to_multiset_insert(d, 0, x);
        }
        assert forall|i: int, j: int| 0 <= i < j < r.len() implies #[trigger] r[i].0 <= #[trigger] r[j].0 by {
            if j < pos {
                assert(t[i].0 <= t[j].0);
            } else if j == pos {
                assert(t[i].0 < x.0);
            } else if i < pos {
                assert(t[i].0 < x.0);
                assert(t[pos].0 >= x.0);
                assert(t[pos].0 <= t[j - 1].0);
            } else if i == pos {
                assert(t[pos].0 >= x.0);
                assert(t[pos].0 <= t[j - 1].0);
            } else {
                assert(t[i - 1].0 <= t[j - 1].0);
            }
        }
    }
}

/// Sort pairs by id, keeping pairs with equal ids in their order.
pub fn sort_by_id<V>(v: Vec<(u64, V)>) -> (r: Vec<(u64, V)>)
    ensures
        r@ == sort_pairs_by_id(v@),
        sorted_by_id(r@),
        r@.to_multiset() == v@.to_multiset(),
{
    let ghost orig = v@;
    let mut rest = v;
    let mut out: Vec<(u64, V)> = Vec::new();
    assert(orig.skip(orig.len() as int) =~= Seq::<(u64, V)>::empty());
    while rest.len() > 0
        invariant
            rest@ == orig.take(rest@.len() as int),
            rest@.len() <= orig.len(),
            out@ == sort_pairs_by_id(orig.skip(rest@.len() as int)),
        decreases rest@.len(),
    {
        let ghost k = (rest@.len() - 1) as int;
        let x = rest.pop().unwrap();
        proof {
            assert(x == orig[k]);
            assert(rest@ =~= orig.take(k));
            assert(orig.skip(k).drop_first() =~= orig.skip(k + 1));
            assert(orig.skip(k)[0] == x);
        }
        let key = x.0;
        let mut pos: usize = 0;
        while pos < out.len() && out[pos].0 < key
            invariant
                0 <= pos <= out@.len(),
                forall|i: int| 0 <= i < pos ==> #[trigger] out@[i].0 < key,
            decreases out@.len() - pos,
        {
            pos = pos + 1;
        }
        proof {
            lemma_insert_by_id_at(out@, x, pos as int);
        }
        out.insert(pos, x);
    }
    assert(orig.skip(0) =~= orig);
    proof {
        lemma_sort_pairs_by_id(orig);
    }
    out
}

} // verus!
