//! Ordering by rank: a stable sort by an integer that each element
//! carries, such as its publish time.
use vstd::prelude::*;

verus! {

/// Something that is ordered by an integer rank. For things that happened
/// the rank is the instant, in seconds since the Unix epoch.
pub trait Ranked {
    /// The rank, as a mathematical integer.
    spec fn rank(&self) -> int;

    /// The rank.
    fn rank_value(&self) -> (t: i64)
        ensures
            t == self.rank(),
    ;
}

/// `s` with `x` placed behind the last element whose rank is not above
/// that of `x`.
pub open spec fn placed<T: Ranked>(s: Seq<T>, x: T) -> Seq<T>
    decreases s.len(),
{
    if s.len() == 0 {
        seq![x]
    } else if s.last().rank() <= x.rank() {
        s.push(x)
    } else {
        placed(s.drop_last(), x).push(s.last())
    }
}

/// The elements of `s` from the lowest rank to the highest; elements of
/// the same rank keep the order they have in `s`.
pub open spec fn sorted_by_rank<T: Ranked>(s: Seq<T>) -> Seq<T>
    decreases s.len(),
{
    if s.len() == 0 {
        s
    } else {
        placed(sorted_by_rank(s.drop_last()), s.last())
    }
}

/// No element of `s` has a lower rank than one before it.
pub open spec fn ascending<T: Ranked>(s: Seq<T>) -> bool {
    forall|i: int, j: int| 0 <= i < j < s.len() ==> s[i].rank() <= s[j].rank()
}

/// Placing `x` is inserting it at `p`, where `p` is the one position with
/// only higher ranks behind it and a rank not above that of `x` before it.
pub proof fn lemma_placed_at<T: Ranked>(s: Seq<T>, x: T, p: int)
    requires
        0 <= p <= s.len(),
        forall|k: int| p <= k < s.len() ==> s[k].rank() > x.rank(),
        p == 0 || s[p - 1].rank() <= x.rank(),
    ensures
        placed(s, x) == s.insert(p, x),
    decreases s.len(),
{
    if s.len() == 0 {
        assert(s.insert(p, x) =~= seq![x]);
    } else if p == s.len() {
        assert(s.insert(p, x) =~= s.push(x));
    } else {
        let front = s.drop_last();
        lemma_placed_at(front, x, p);
        assert(front.insert(p, x).push(s.last()) =~= s.insert(p, x));
    }
}

/// Placing an element makes the sequence longer by one.
pub proof fn lemma_placed_len<T: Ranked>(s: Seq<T>, x: T)
    ensures
        placed(s, x).len() == s.len() + 1,
    decreases s.len(),
{
    if s.len() > 0 && s.last().rank() > x.rank() {
        lemma_placed_len(s.drop_last(), x);
    }
}

/// Placing an element into an ascending sequence keeps it ascending, adds
/// that element and nothing else.
pub proof fn lemma_placed<T: Ranked>(s: Seq<T>, x: T)
    requires
        ascending(s),
    ensures
        ascending(placed(s, x)),
        placed(s, x).len() == s.len() + 1,
        placed(s, x).to_multiset() == s.to_multiset().insert(x),
    decreases s.len(),
{
    broadcast use vstd::seq_lib::group_to_multiset_ensures;

    if s.len() == 0 {
        assert(s =~= Seq::empty());
        assert(seq![x] =~= Seq::<T>::empty().push(x));
    } else if s.last().rank() <= x.rank() {
    } else {
        let front = s.drop_last();
        lemma_placed(front, x);
        let inner = placed(front, x);
        let out = inner.push(s.last());
        assert(s =~= front.push(s.last()));
        assert forall|i: int, j: int| 0 <= i < j < out.len() implies out[i].rank()
            <= out[j].rank() by {
            if j < inner.len() {
            } else {
                assert(inner.to_multiset().count(inner[i]) > 0);
                if inner[i] == x {
                } else {
                    assert(front.to_multiset().count(inner[i]) > 0);
                    let k = choose|k: int| 0 <= k < front.len() && front[k] == inner[i];
                    assert(s[k] == inner[i]);
                }
            }
        }
        assert(out.to_multiset() =~= s.to_multiset().insert(x));
    }
}

/// Sorting arranges the same elements in ascending order.
pub proof fn lemma_sorted_by_rank<T: Ranked>(s: Seq<T>)
    ensures
        ascending(sorted_by_rank(s)),
        sorted_by_rank(s).len() == s.len(),
        sorted_by_rank(s).to_multiset() == s.to_multiset(),
    decreases s.len(),
{
    broadcast use vstd::seq_lib::group_to_multiset_ensures;

    if s.len() == 0 {
    } else {
        lemma_sorted_by_rank(s.drop_last());
        lemma_placed(sorted_by_rank(s.drop_last()), s.last());
        assert(s =~= s.drop_last().push(s.last()));
    }
}

/// Sorting sees only the ranks: where `f` keeps the rank of every element,
/// sorting the images under `f` gives the images of the sorted elements.
pub proof fn lemma_sorted_map<A: Ranked, B: Ranked>(s: Seq<A>, f: spec_fn(A) -> B)
    requires
        forall|x: A| #[trigger] f(x).rank() == x.rank(),
    ensures
        sorted_by_rank(s.map_values(f)) == sorted_by_rank(s).map_values(f),
    decreases s.len(),
{
    if s.len() == 0 {
        assert(s.map_values(f) =~= sorted_by_rank(s).map_values(f));
    } else {
        let front = s.drop_last();
        lemma_sorted_map(front, f);
        assert(s.map_values(f).drop_last() =~= front.map_values(f));
        assert(s.map_values(f).last() == f(s.last()));
        lemma_placed_map(sorted_by_rank(front), s.last(), f);
    }
}

/// Placing sees only the ranks: see [`lemma_sorted_map`].
pub proof fn lemma_placed_map<A: Ranked, B: Ranked>(s: Seq<A>, x: A, f: spec_fn(A) -> B)
    requires
        forall|y: A| #[trigger] f(y).rank() == y.rank(),
    ensures
        placed(s.map_values(f), f(x)) == placed(s, x).map_values(f),
    decreases s.len(),
{
    let t = s.map_values(f);
    if s.len() == 0 {
        assert(placed(s, x).map_values(f) =~= seq![f(x)]);
    } else {
        assert(t.last() == f(s.last()));
        assert(t.last().rank() == s.last().rank());
        assert(f(x).rank() == x.rank());
        if s.last().rank() <= x.rank() {
            assert(t.push(f(x)) =~= s.push(x).map_values(f));
        } else {
            lemma_placed_map(s.drop_last(), x, f);
            assert(t.drop_last() =~= s.drop_last().map_values(f));
            assert(placed(s.drop_last(), x).map_values(f).push(t.last()) =~= placed(
                s.drop_last(),
                x,
            ).push(s.last()).map_values(f));
        }
    }
}

/// Sorts `items` from the lowest rank to the highest. The sort is stable:
/// items of the same rank keep their order.
pub fn sort_by_rank<T: Ranked>(items: Vec<T>) -> (r: Vec<T>)
    ensures
        r@ == sorted_by_rank(items@),
{
    let mut out: Vec<T> = Vec::new();
    let ghost all = items@;
    for x in it: items
        invariant
            it.seq() == all,
            out@ == sorted_by_rank(all.take(it.index() as int)),
    {
        let mut p: usize = out.len();
        while p > 0 && out[p - 1].rank_value() > x.rank_value()
            invariant
                p <= out.len(),
                forall|k: int| p <= k < out.len() ==> out@[k].rank() > x.rank(),
            decreases p,
        {
            p -= 1;
        }
        proof {
            lemma_placed_at(out@, x, p as int);
            let i = it.index() as int;
            assert(all.take(i + 1).drop_last() =~= all.take(i));
            assert(all.take(i + 1).last() == x);
        }
        out.insert(p, x);
    }
    proof {
        assert(all.take(all.len() as int) =~= all);
    }
    out
}

} // verus!
