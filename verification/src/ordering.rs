//! Ordering of entries by a number, largest first.

use vstd::prelude::*;

verus! {

/// An entry that is ordered by a number: an article by its publication time, a search hit
/// by its score.
pub trait Ranked: View + Sized {
    spec fn rank_of(entry: Self::V) -> int;

    fn rank(&self) -> (r: i64)
        ensures
            r == Self::rank_of(self@),
    ;
}

/// The views of a sequence of values.
pub open spec fn views<T: View>(v: Seq<T>) -> Seq<T::V> {
    Seq::new(v.len(), |i: int| v[i]@)
}

/// `s`, which is ordered, with `a` placed behind every entry whose key is not smaller.
pub open spec fn place<A>(s: Seq<A>, a: A, key: spec_fn(A) -> int) -> Seq<A>
    decreases s.len(),
{
    if s.len() > 0 && key(s.last()) < key(a) {
        place(s.drop_last(), a, key).push(s.last())
    } else {
        s.push(a)
    }
}

/// `s` ordered by descending key; entries with equal keys keep their order.
pub open spec fn largest_first<A>(s: Seq<A>, key: spec_fn(A) -> int) -> Seq<A>
    decreases s.len(),
{
    if s.len() == 0 {
        s
    } else {
        place(largest_first(s.drop_last(), key), s.last(), key)
    }
}

/// No entry has a smaller key than one behind it.
pub open spec fn descending<A>(s: Seq<A>, key: spec_fn(A) -> int) -> bool {
    forall|i: int, j: int| 0 <= i <= j < s.len() ==> key(#[trigger] s[i]) >= key(#[trigger] s[j])
}

proof fn lemma_place_inserts<A>(s: Seq<A>, a: A, key: spec_fn(A) -> int, p: int)
    requires
        0 <= p <= s.len(),
        forall|j: int| p <= j < s.len() ==> key(#[trigger] s[j]) < key(a),
        p > 0 ==> key(s[p - 1]) >= key(a),
    ensures
        place(s, a, key) == s.insert(p, a),
    decreases s.len(),
{
    if p < s.len() {
        let shorter = s.drop_last();
        lemma_place_inserts(shorter, a, key, p);
        assert(shorter.insert(p, a).push(s.last()) =~= s.insert(p, a));
    } else {
        assert(s.insert(p, a) =~= s.push(a));
    }
}

proof fn lemma_place<A>(s: Seq<A>, a: A, key: spec_fn(A) -> int)
    requires
        descending(s, key),
    ensures
        descending(place(s, a, key), key),
        place(s, a, key).to_multiset() == s.to_multiset().insert(a),
        place(s, a, key).len() == s.len() + 1,
    decreases s.len(),
{
    broadcast use vstd::seq_lib::group_to_multiset_ensures;

    if s.len() > 0 && key(s.last()) < key(a) {
        let shorter = s.drop_last();
        lemma_place(shorter, a, key);
        let placed = place(shorter, a, key);
        assert(s == shorter.push(s.last()));
        assert(s.to_multiset() == shorter.to_multiset().insert(s.last()));
        assert forall|i: int| 0 <= i < placed.len() implies key(#[trigger] placed[i]) >= key(
            s.last(),
        ) by {
            assert(placed.contains(placed[i]));
            assert(placed.to_multiset().contains(placed[i]));
            if placed[i] != a {
                assert(shorter.to_multiset().contains(placed[i]));
                assert(shorter.contains(placed[i]));
                let j = choose|j: int| 0 <= j < shorter.len() && shorter[j] == placed[i];
                assert(key(s[j]) >= key(s[s.len() - 1]));
            }
        }
        assert(placed.push(s.last()).to_multiset() == placed.to_multiset().insert(s.last()));
        assert(placed.push(s.last()).to_multiset() =~= s.to_multiset().insert(a));
    }
}

/// `largest_first` only reorders, and what it gives is ordered.
pub proof fn law_largest_first_sorts<A>(s: Seq<A>, key: spec_fn(A) -> int)
    ensures
        descending(largest_first(s, key), key),
        largest_first(s, key).to_multiset() == s.to_multiset(),
        largest_first(s, key).len() == s.len(),
    decreases s.len(),
{
    broadcast use vstd::seq_lib::group_to_multiset_ensures;

    if s.len() > 0 {
        law_largest_first_sorts(s.drop_last(), key);
        lemma_place(largest_first(s.drop_last(), key), s.last(), key);
        assert(s == s.drop_last().push(s.last()));
    }
}

/// The entries of `s` with the key `k`, in their order.
pub open spec fn with_key<A>(s: Seq<A>, key: spec_fn(A) -> int, k: int) -> Seq<A>
    decreases s.len(),
{
    if s.len() == 0 {
        s
    } else if key(s.last()) == k {
        with_key(s.drop_last(), key, k).push(s.last())
    } else {
        with_key(s.drop_last(), key, k)
    }
}

proof fn lemma_place_with_key<A>(s: Seq<A>, a: A, key: spec_fn(A) -> int, k: int)
    requires
        descending(s, key),
    ensures
        with_key(place(s, a, key), key, k) == with_key(s.push(a), key, k),
    decreases s.len(),
{
    assert(s.push(a).drop_last() == s);
    if s.len() > 0 && key(s.last()) < key(a) {
        let shorter = s.drop_last();
        lemma_place_with_key(shorter, a, key, k);
        assert(shorter.push(a).drop_last() == shorter);
        assert(place(s, a, key).drop_last() == place(shorter, a, key));
        assert(place(s, a, key).last() == s.last());
        assert(shorter.push(a).last() == a && s.push(a).last() == a);
        let kept = with_key(shorter, key, k);
        assert(with_key(shorter.push(a), key, k) == if key(a) == k {
            kept.push(a)
        } else {
            kept
        });
        assert(with_key(s, key, k) == if key(s.last()) == k {
            kept.push(s.last())
        } else {
            kept
        });
    }
}

/// Entries with equal keys keep their order.
pub proof fn law_largest_first_is_stable<A>(s: Seq<A>, key: spec_fn(A) -> int, k: int)
    ensures
        with_key(largest_first(s, key), key, k) == with_key(s, key, k),
    decreases s.len(),
{
    if s.len() > 0 {
        let before = largest_first(s.drop_last(), key);
        law_largest_first_is_stable(s.drop_last(), key, k);
        law_largest_first_sorts(s.drop_last(), key);
        lemma_place_with_key(before, s.last(), key, k);
        assert(before.push(s.last()).drop_last() == before);
    }
}

/// What is ordered already is left as it is.
pub proof fn law_largest_first_keeps_ordered<A>(s: Seq<A>, key: spec_fn(A) -> int)
    requires
        descending(s, key),
    ensures
        largest_first(s, key) == s,
    decreases s.len(),
{
    if s.len() > 0 {
        let shorter = s.drop_last();
        assert(descending(shorter, key)) by {
            assert forall|i: int, j: int| 0 <= i <= j < shorter.len() implies key(
                #[trigger] shorter[i],
            ) >= key(#[trigger] shorter[j]) by {
                assert(key(s[i]) >= key(s[j]));
            }
        }
        law_largest_first_keeps_ordered(shorter, key);
        if shorter.len() > 0 {
            assert(key(s[s.len() - 2]) >= key(s[s.len() - 1]));
        }
        assert(shorter.push(s.last()) == s);
    }
}

/// The entries ordered by descending rank; entries of equal rank keep their order.
pub fn sort_largest_first<T: Ranked>(entries: Vec<T>) -> (r: Vec<T>)
    ensures
        views(r@) == largest_first(views(entries@), |e: T::V| T::rank_of(e)),
{
    let ghost key = |e: T::V| T::rank_of(e);
    let ghost all = views(entries@);
    let mut sorted: Vec<T> = Vec::new();
    assert(views(sorted@) == largest_first(all.take(0), key));
    for entry in it: entries
        invariant
            it.seq() == entries@,
            all == views(entries@),
            key == (|e: T::V| T::rank_of(e)),
            views(sorted@) == largest_first(all.take(it.index()), key),
    {
        let ghost next = all.take(it.index() + 1);
        let ghost before = views(sorted@);
        proof {
            assert(next.drop_last() == all.take(it.index()));
            law_largest_first_sorts(all.take(it.index()), key);
        }
        let rank = entry.rank();
        let mut p: usize = sorted.len();
        while p > 0 && sorted[p - 1].rank() < rank
            invariant
                p <= sorted@.len(),
                before == views(sorted@),
                rank == T::rank_of(entry@),
                key == (|e: T::V| T::rank_of(e)),
                forall|j: int| p <= j < before.len() ==> key(#[trigger] before[j]) < rank,
            decreases p,
        {
            p = p - 1;
            assert(before[p as int] == sorted@[p as int]@);
        }
        proof {
            if p > 0 {
                assert(before[p - 1] == sorted@[p - 1]@);
            }
            lemma_place_inserts(before, entry@, key, p as int);
        }
        sorted.insert(p, entry);
        assert(views(sorted@) =~= before.insert(p as int, entry@));
        assert(next.last() == entry@);
    }
    assert(all.take(all.len() as int) == all);
    sorted
}

} // verus!
