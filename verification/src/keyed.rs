//! Collections of things that are told apart by a textual key.
use crate::text::str_eq;
use vstd::prelude::*;

verus! {

/// Something identified by a textual key.
pub trait Keyed {
    /// The key, as mathematical text.
    spec fn key(&self) -> Seq<char>;

    /// The key.
    fn key_str(&self) -> (k: &str)
        ensures
            k@ == self.key(),
    ;
}

/// Some element of `s` has the key `key`.
pub open spec fn has_key<T: Keyed>(s: Seq<T>, key: Seq<char>) -> bool {
    exists|i: int| 0 <= i < s.len() && #[trigger] s[i].key() == key
}

/// No two elements of `s` have the same key.
pub open spec fn distinct_keys<T: Keyed>(s: Seq<T>) -> bool {
    forall|i: int, j: int|
        0 <= i < s.len() && 0 <= j < s.len() && i != j ==> #[trigger] s[i].key() != #[trigger] s[j].key()
}

/// The position of the first element of `s` with the key `key`.
pub open spec fn first_with<T: Keyed>(s: Seq<T>, key: Seq<char>) -> Option<int>
    decreases s.len(),
{
    if s.len() == 0 {
        None
    } else {
        match first_with(s.drop_last(), key) {
            Some(i) => Some(i),
            None => if s.last().key() == key {
                Some(s.len() - 1)
            } else {
                None
            },
        }
    }
}

/// The position of the last element of `s` with the key `key`.
pub open spec fn last_with<T: Keyed>(s: Seq<T>, key: Seq<char>) -> Option<int>
    decreases s.len(),
{
    if s.len() == 0 {
        None
    } else if s.last().key() == key {
        Some(s.len() - 1)
    } else {
        last_with(s.drop_last(), key)
    }
}

/// `first_with` finds the first element with the key, and finds none only
/// where there is none.
pub proof fn lemma_first_with<T: Keyed>(s: Seq<T>, key: Seq<char>)
    ensures
        match first_with(s, key) {
            Some(i) => 0 <= i < s.len() && s[i].key() == key && forall|k: int|
                0 <= k < i ==> (#[trigger] s[k]).key() != key,
            None => forall|k: int| 0 <= k < s.len() ==> (#[trigger] s[k]).key() != key,
        },
        first_with(s, key) is Some <==> has_key(s, key),
    decreases s.len(),
{
    if s.len() > 0 {
        let front = s.drop_last();
        lemma_first_with(front, key);
        match first_with(front, key) {
            Some(i) => {
                assert(s[i] == front[i]);
                assert forall|k: int| 0 <= k < i implies (#[trigger] s[k]).key() != key by {
                    assert(s[k] == front[k]);
                }
            },
            None => {
                assert forall|k: int| 0 <= k < s.len() - 1 implies (#[trigger] s[k]).key()
                    != key by {
                    assert(s[k] == front[k]);
                }
            },
        }
    }
}

/// `last_with` finds the last element with the key, and finds none only
/// where there is none.
pub proof fn lemma_last_with<T: Keyed>(s: Seq<T>, key: Seq<char>)
    ensures
        match last_with(s, key) {
            Some(i) => 0 <= i < s.len() && s[i].key() == key && forall|k: int|
                i < k < s.len() ==> (#[trigger] s[k]).key() != key,
            None => forall|k: int| 0 <= k < s.len() ==> (#[trigger] s[k]).key() != key,
        },
        last_with(s, key) is Some <==> has_key(s, key),
    decreases s.len(),
{
    if s.len() > 0 {
        let front = s.drop_last();
        lemma_last_with(front, key);
        if s.last().key() == key {
        } else {
            match last_with(front, key) {
                Some(i) => {
                    assert(s[i] == front[i]);
                    assert forall|k: int| i < k < s.len() implies (#[trigger] s[k]).key()
                        != key by {
                        if k < s.len() - 1 {
                            assert(s[k] == front[k]);
                        }
                    }
                },
                None => {
                    assert forall|k: int| 0 <= k < s.len() implies (#[trigger] s[k]).key()
                        != key by {
                        if k < s.len() - 1 {
                            assert(s[k] == front[k]);
                        }
                    }
                },
            }
        }
    }
}

/// A selection from a sequence of distinct keys has distinct keys, holds
/// only elements of the sequence, and only such as were selected.
pub proof fn lemma_filter_keys<T: Keyed>(s: Seq<T>, pred: spec_fn(T) -> bool)
    requires
        distinct_keys(s),
    ensures
        distinct_keys(s.filter(pred)),
        forall|j: int|
            0 <= j < s.filter(pred).len() ==> pred(#[trigger] s.filter(pred)[j]) && exists|i: int|
                0 <= i < s.len() && s[i] == s.filter(pred)[j],
        forall|key: Seq<char>| #[trigger] has_key(s.filter(pred), key) ==> has_key(s, key),
    decreases s.len(),
{
    reveal(Seq::filter);
    let out = s.filter(pred);
    if s.len() > 0 {
        let front = s.drop_last();
        let inner = front.filter(pred);
        assert forall|a: int, b: int|
            0 <= a < front.len() && 0 <= b < front.len() && a != b implies #[trigger] front[a].key()
            != #[trigger] front[b].key() by {
            assert(s[a].key() != s[b].key());
        }
        lemma_filter_keys(front, pred);
        assert forall|j: int| 0 <= j < out.len() implies pred(#[trigger] out[j]) && exists|i: int|
            0 <= i < s.len() && s[i] == out[j] by {
            if j < inner.len() {
                assert(out[j] == inner[j]);
                let i = choose|i: int| 0 <= i < front.len() && front[i] == inner[j];
                assert(s[i] == out[j]);
            } else {
                assert(s[s.len() - 1] == out[j]);
            }
        }
        assert forall|a: int, b: int|
            0 <= a < out.len() && 0 <= b < out.len() && a != b implies #[trigger] out[a].key()
            != #[trigger] out[b].key() by {
            let i = choose|i: int| 0 <= i < s.len() && s[i] == out[a];
            let j = choose|j: int| 0 <= j < s.len() && s[j] == out[b];
            if a < inner.len() && b < inner.len() {
                assert(inner[a].key() != inner[b].key());
            } else if a < inner.len() {
                let m = choose|m: int| 0 <= m < front.len() && front[m] == inner[a];
                assert(s[m].key() != s[s.len() - 1].key());
            } else {
                let m = choose|m: int| 0 <= m < front.len() && front[m] == inner[b];
                assert(s[m].key() != s[s.len() - 1].key());
            }
        }
        assert forall|key: Seq<char>| #[trigger] has_key(out, key) implies has_key(s, key) by {
            let j = choose|j: int| 0 <= j < out.len() && #[trigger] out[j].key() == key;
            let i = choose|i: int| 0 <= i < s.len() && s[i] == out[j];
            assert(s[i].key() == key);
        }
    }
}

/// Finds the first element of `v` with the key `key`.
pub fn position<T: Keyed>(v: &Vec<T>, key: &str) -> (r: Option<usize>)
    ensures
        r is Some <==> has_key(v@, key@),
        match r {
            Some(i) => first_with(v@, key@) == Some(i as int) && i < v@.len() && v@[i as int].key()
                == key@,
            None => first_with(v@, key@) is None,
        },
{
    let mut i: usize = 0;
    while i < v.len()
        invariant
            i <= v.len(),
            forall|k: int| 0 <= k < i ==> (#[trigger] v@[k]).key() != key@,
        decreases v.len() - i,
    {
        if str_eq(v[i].key_str(), key) {
            proof {
                lemma_first_with(v@, key@);
            }
            return Some(i);
        }
        i += 1;
    }
    proof {
        lemma_first_with(v@, key@);
    }
    None
}

/// `acc` with `x` written over the element of the same key, or added at the
/// end where there is none.
pub open spec fn upserted<T: Keyed>(acc: Seq<T>, x: T) -> Seq<T> {
    match first_with(acc, x.key()) {
        Some(i) => acc.update(i, x),
        None => acc.push(x),
    }
}

/// One element per key of `items`: each key stands where it first occurred
/// and holds the element that came last under it.
pub open spec fn deduplicated<T: Keyed>(items: Seq<T>) -> Seq<T>
    decreases items.len(),
{
    if items.len() == 0 {
        items
    } else {
        upserted(deduplicated(items.drop_last()), items.last())
    }
}

/// Writing an element into a sequence of distinct keys keeps the keys
/// distinct, keeps every other key, and makes the element the one found
/// under its key.
pub proof fn lemma_upserted<T: Keyed>(acc: Seq<T>, x: T)
    requires
        distinct_keys(acc),
    ensures
        distinct_keys(upserted(acc, x)),
        forall|key: Seq<char>| #[trigger]
            has_key(upserted(acc, x), key) <==> (has_key(acc, key) || key == x.key()),
        forall|j: int|
            0 <= j < upserted(acc, x).len() ==> #[trigger] upserted(acc, x)[j] == (if upserted(
                acc,
                x,
            )[j].key() == x.key() {
                x
            } else {
                acc[j]
            }),
        forall|j: int|
            0 <= j < upserted(acc, x).len() && upserted(acc, x)[j].key() != x.key() ==> j < acc.len(),
{
    lemma_first_with(acc, x.key());
    let out = upserted(acc, x);
    match first_with(acc, x.key()) {
        Some(i) => {
            assert forall|a: int, b: int|
                0 <= a < out.len() && 0 <= b < out.len() && a != b implies #[trigger] out[a].key()
                != #[trigger] out[b].key() by {
                if a == i {
                    assert(acc[i].key() != acc[b].key());
                } else if b == i {
                    assert(acc[a].key() != acc[i].key());
                } else {
                    assert(acc[a].key() != acc[b].key());
                }
            }
            assert forall|key: Seq<char>| has_key(out, key) <==> (has_key(acc, key) || key
                == x.key()) by {
                if has_key(out, key) {
                    let j = choose|j: int| 0 <= j < out.len() && #[trigger] out[j].key() == key;
                    if j != i {
                        assert(acc[j].key() == key);
                    }
                }
                if has_key(acc, key) {
                    let j = choose|j: int| 0 <= j < acc.len() && #[trigger] acc[j].key() == key;
                    if j == i {
                        assert(out[i].key() == key);
                    } else {
                        assert(out[j].key() == key);
                    }
                }
                if key == x.key() {
                    assert(out[i].key() == key);
                }
            }
            assert forall|j: int| 0 <= j < out.len() implies #[trigger] out[j] == (if out[j].key()
                == x.key() {
                x
            } else {
                acc[j]
            }) by {
                if j != i {
                    assert(acc[j].key() != acc[i].key());
                }
            }
        },
        None => {
            assert forall|a: int, b: int|
                0 <= a < out.len() && 0 <= b < out.len() && a != b implies #[trigger] out[a].key()
                != #[trigger] out[b].key() by {
                if a < acc.len() && b < acc.len() {
                    assert(acc[a].key() != acc[b].key());
                } else if a < acc.len() {
                    assert(acc[a].key() != x.key());
                } else {
                    assert(acc[b].key() != x.key());
                }
            }
            assert forall|key: Seq<char>| has_key(out, key) <==> (has_key(acc, key) || key
                == x.key()) by {
                if has_key(out, key) {
                    let j = choose|j: int| 0 <= j < out.len() && #[trigger] out[j].key() == key;
                    if j < acc.len() {
                        assert(acc[j].key() == key);
                    }
                }
                if has_key(acc, key) {
                    let j = choose|j: int| 0 <= j < acc.len() && #[trigger] acc[j].key() == key;
                    assert(out[j].key() == key);
                }
                if key == x.key() {
                    assert(out[acc.len() as int].key() == key);
                }
            }
            assert forall|j: int| 0 <= j < out.len() implies #[trigger] out[j] == (if out[j].key()
                == x.key() {
                x
            } else {
                acc[j]
            }) by {
                if j < acc.len() {
                    assert(acc[j].key() != x.key());
                }
            }
        },
    }
}

/// Deduplication keeps exactly one element for every key that occurs, and
/// that element is the last one that came under the key.
pub proof fn lemma_deduplicated<T: Keyed>(items: Seq<T>)
    ensures
        distinct_keys(deduplicated(items)),
        forall|key: Seq<char>| #[trigger] has_key(deduplicated(items), key) <==> has_key(items, key),
        forall|j: int|
            0 <= j < deduplicated(items).len() ==> {
                let found = last_with(items, (#[trigger] deduplicated(items)[j]).key());
                found is Some && items[found->0] == deduplicated(items)[j]
            },
    decreases items.len(),
{
    if items.len() == 0 {
    } else {
        let front = items.drop_last();
        let x = items.last();
        let acc = deduplicated(front);
        let out = deduplicated(items);
        lemma_deduplicated(front);
        lemma_upserted(acc, x);
        assert forall|key: Seq<char>| has_key(out, key) <==> has_key(items, key) by {
            if has_key(front, key) {
                let j = choose|j: int| 0 <= j < front.len() && #[trigger] front[j].key() == key;
                assert(items[j].key() == key);
            }
            if has_key(items, key) {
                let j = choose|j: int| 0 <= j < items.len() && #[trigger] items[j].key() == key;
                if j < front.len() {
                    assert(front[j].key() == key);
                }
            }
        }
        assert forall|j: int| 0 <= j < out.len() implies {
            let found = last_with(items, (#[trigger] out[j]).key());
            found is Some && items[found->0] == out[j]
        } by {
            if out[j].key() == x.key() {
                assert(out[j] == x);
            } else {
                assert(out[j] == acc[j]);
                let found = last_with(front, acc[j].key());
                lemma_last_with(front, acc[j].key());
                assert(items[found->0] == front[found->0]);
            }
        }
    }
}

/// Keeps one element per key: a later element replaces an earlier one of
/// the same key, in the earlier one's place.
pub fn dedup_last_wins<T: Keyed>(items: Vec<T>) -> (r: Vec<T>)
    ensures
        r@ == deduplicated(items@),
{
    let mut out: Vec<T> = Vec::new();
    let ghost all = items@;
    for x in it: items
        invariant
            it.seq() == all,
            out@ == deduplicated(all.take(it.index() as int)),
    {
        proof {
            let i = it.index() as int;
            assert(all.take(i + 1).drop_last() =~= all.take(i));
            assert(all.take(i + 1).last() == x);
        }
        match position(&out, x.key_str()) {
            Some(i) => {
                out.set(i, x);
            },
            None => {
                out.push(x);
            },
        }
    }
    proof {
        assert(all.take(all.len() as int) =~= all);
    }
    out
}

} // verus!
