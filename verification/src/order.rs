//! Ordering items by time, most recent first.
use vstd::prelude::*;

use vstd::set_lib::{lemma_int_range, lemma_len_subset, lemma_subset_equality, set_int_range};

use crate::timestamp::{ts_before, Timestamp};

verus! {

/// Items that carry a point in time by which they are listed.
pub trait Stamped {
    /// The time of the item.
    spec fn stamp(&self) -> Timestamp;

    /// The time of the item.
    fn time(&self) -> (r: Timestamp)
        ensures
            r == self.stamp(),
    ;
}

/// Sorted with the most recent first.
pub open spec fn newest_first<T: Stamped>(s: Seq<T>) -> bool {
    forall|i: int, j: int| 0 <= i < j < s.len() ==> !ts_before(s[i].stamp(), s[j].stamp())
}

/// `idx` lists distinct positions below `n`, one per position: a
/// permutation of the positions below `n`.
pub open spec fn is_index_permutation(idx: Seq<int>, n: nat) -> bool {
    &&& idx.len() == n
    &&& forall|k: int| 0 <= k < n ==> 0 <= #[trigger] idx[k] < n
    &&& forall|a: int, b: int| 0 <= a < b < n ==> idx[a] != idx[b]
}

/// `r` holds the items of `s`, the item at position `k` of `r` being the
/// one at position `idx[k]` of `s`, and items with the same time keep the
/// order they have in `s`.
pub open spec fn stable_reorder<T: Stamped>(s: Seq<T>, r: Seq<T>, idx: Seq<int>) -> bool {
    &&& r.len() == s.len()
    &&& is_index_permutation(idx, s.len())
    &&& forall|k: int| 0 <= k < r.len() ==> r[k] == s[#[trigger] idx[k]]
    &&& forall|a: int, b: int|
        0 <= a < b < r.len() && r[a].stamp() == r[b].stamp() ==> idx[a] < idx[b]
}

/// Orders items by their time, most recent first; items with the same time
/// keep their order.
pub fn sort_newest_first<T: Stamped>(metas: Vec<T>) -> (r: Vec<T>)
    ensures
        newest_first(r@),
        exists|idx: Seq<int>| stable_reorder(metas@, r@, idx),
{
    let mut sorted: Vec<T> = Vec::new();
    let mut rest = metas;
    let ghost orig = rest@;
    let ghost mut idx: Seq<int> = Seq::empty();
    proof {
        assert(orig.subrange(0, orig.len() as int) =~= orig);
    }
    // insertion sort: take items from the back of `rest` and insert each
    // before the first item that is not strictly newer
    while rest.len() > 0
        invariant
            newest_first(sorted@),
            sorted@.len() + rest@.len() == orig.len(),
            rest@ == orig.subrange(0, rest@.len() as int),
            idx.len() == sorted@.len(),
            forall|k: int| 0 <= k < idx.len() ==> rest@.len() <= #[trigger] idx[k] < orig.len(),
            forall|a: int, b: int| 0 <= a < b < idx.len() ==> idx[a] != idx[b],
            forall|k: int| 0 <= k < sorted@.len() ==> sorted@[k] == orig[#[trigger] idx[k]],
            forall|a: int, b: int|
                0 <= a < b < sorted@.len() && sorted@[a].stamp() == sorted@[b].stamp() ==> idx[a] < idx[b],
        decreases rest@.len(),
    {
        let ghost before_rest = rest@;
        let item = rest.pop().unwrap();
        let ghost m: int = rest@.len() as int;
        proof {
            assert(item == orig[m]);
            assert(rest@ =~= orig.subrange(0, m));
        }
        // skip the elements strictly newer than `item`
        let mut pos: usize = 0;
        while pos < sorted.len() && item.time().is_before(&sorted[pos].time())
            invariant
                pos <= sorted@.len(),
                forall|j: int| 0 <= j < pos ==> ts_before(item.stamp(), sorted@[j].stamp()),
            decreases sorted@.len() - pos,
        {
            pos = pos + 1;
        }
        let ghost s0 = sorted@;
        let ghost i0 = idx;
        sorted.insert(pos, item);
        proof {
            idx = i0.insert(pos as int, m);
            assert(sorted@ =~= s0.insert(pos as int, item));
            assert forall|k: int| 0 <= k < idx.len() implies m <= #[trigger] idx[k] < orig.len() by {
                if k < pos {
                    assert(idx[k] == i0[k]);
                } else if k > pos {
                    assert(idx[k] == i0[k - 1]);
                }
            }
            assert forall|a: int, b: int| 0 <= a < b < idx.len() implies idx[a] != idx[b] by {
                if b < pos {
                    assert(idx[a] == i0[a] && idx[b] == i0[b]);
                } else if b == pos {
                    assert(idx[a] == i0[a]);
                } else if a == pos {
                    assert(idx[b] == i0[b - 1]);
                } else if a < pos {
                    assert(idx[a] == i0[a] && idx[b] == i0[b - 1]);
                } else {
                    assert(idx[a] == i0[a - 1] && idx[b] == i0[b - 1]);
                }
            }
            assert forall|k: int| 0 <= k < sorted@.len() implies sorted@[k] == orig[#[trigger] idx[k]] by {
                if k < pos {
                    assert(idx[k] == i0[k] && sorted@[k] == s0[k]);
                } else if k > pos {
                    assert(idx[k] == i0[k - 1] && sorted@[k] == s0[k - 1]);
                }
            }
            assert forall|a: int, b: int|
                0 <= a < b < sorted@.len() && sorted@[a].stamp() == sorted@[b].stamp() implies idx[a]
                < idx[b] by {
                if b < pos {
                    assert(idx[a] == i0[a] && idx[b] == i0[b]);
                    assert(sorted@[a] == s0[a] && sorted@[b] == s0[b]);
                } else if b == pos {
                    assert(sorted@[a] == s0[a]);
                    assert(ts_before(item.stamp(), s0[a].stamp()));
                } else if a == pos {
                    assert(idx[b] == i0[b - 1]);
                } else if a < pos {
                    assert(idx[a] == i0[a] && idx[b] == i0[b - 1]);
                    assert(sorted@[a] == s0[a] && sorted@[b] == s0[b - 1]);
                } else {
                    assert(idx[a] == i0[a - 1] && idx[b] == i0[b - 1]);
                    assert(sorted@[a] == s0[a - 1] && sorted@[b] == s0[b - 1]);
                }
            }
            assert forall|i: int, j: int| 0 <= i < j < sorted@.len() implies !ts_before(
                sorted@[i].stamp(),
                sorted@[j].stamp(),
            ) by {
                if j < pos {
                    assert(sorted@[i] == s0[i] && sorted@[j] == s0[j]);
                } else if j == pos {
                    assert(sorted@[i] == s0[i]);
                } else if i == pos {
                    assert(sorted@[j] == s0[j - 1]);
                    assert(sorted@[i] == item);
                    assert(!ts_before(item.stamp(), s0[pos as int].stamp()));
                    if j - 1 > pos {
                        assert(!ts_before(s0[pos as int].stamp(), s0[j - 1].stamp()));
                    }
                } else if i < pos {
                    assert(sorted@[i] == s0[i] && sorted@[j] == s0[j - 1]);
                } else {
                    assert(sorted@[i] == s0[i - 1] && sorted@[j] == s0[j - 1]);
                }
            }
        }
    }
    proof {
        assert(stable_reorder(orig, sorted@, idx));
    }
    sorted
}

/// Each item of `s` strictly later than every item before it: the order in
/// which items made one after another come.
pub open spec fn strictly_later_each<T: Stamped>(s: Seq<T>) -> bool {
    forall|i: int, j: int| 0 <= i < j < s.len() ==> ts_before(s[i].stamp(), s[j].stamp())
}

/// A position list that falls at each step, read from its start: its
/// `k`-th entry is at most `n - 1 - k`.
proof fn lemma_falling_upper(idx: Seq<int>, n: int, k: int)
    requires
        0 <= k < idx.len() == n,
        forall|a: int| 0 <= a < n ==> 0 <= #[trigger] idx[a] < n,
        forall|a: int, b: int| 0 <= a < b < n ==> idx[a] > idx[b],
    ensures
        idx[k] <= n - 1 - k,
    decreases k,
{
    if k > 0 {
        lemma_falling_upper(idx, n, k - 1);
        assert(idx[k - 1] > idx[k]);
    }
}

/// A position list that falls at each step, read from its end: its `k`-th
/// entry is at least `n - 1 - k`.
proof fn lemma_falling_lower(idx: Seq<int>, n: int, k: int)
    requires
        0 <= k < idx.len() == n,
        forall|a: int| 0 <= a < n ==> 0 <= #[trigger] idx[a] < n,
        forall|a: int, b: int| 0 <= a < b < n ==> idx[a] > idx[b],
    ensures
        idx[k] >= n - 1 - k,
    decreases n - k,
{
    if k < n - 1 {
        lemma_falling_lower(idx, n, k + 1);
        assert(idx[k] > idx[k + 1]);
    }
}

/// Items made one after another, each strictly later than the one before,
/// come out of [`sort_newest_first`] in reverse: the one made last comes
/// first and the one made first comes last.
pub proof fn law_newest_first_reverses_creation<T: Stamped>(s: Seq<T>, r: Seq<T>)
    requires
        strictly_later_each(s),
        newest_first(r),
        exists|idx: Seq<int>| stable_reorder(s, r, idx),
    ensures
        r.len() == s.len(),
        forall|k: int| 0 <= k < r.len() ==> #[trigger] r[k] == s[s.len() - 1 - k],
{
    let idx = choose|idx: Seq<int>| stable_reorder(s, r, idx);
    let n = s.len() as int;
    assert forall|a: int, b: int| 0 <= a < b < n implies idx[a] > idx[b] by {
        assert(0 <= idx[a] < n && 0 <= idx[b] < n);
        assert(r[a] == s[idx[a]] && r[b] == s[idx[b]]);
        assert(idx[a] != idx[b]);
        if idx[a] < idx[b] {
            assert(ts_before(s[idx[a]].stamp(), s[idx[b]].stamp()));
        }
    }
    assert forall|k: int| 0 <= k < r.len() implies #[trigger] r[k] == s[s.len() - 1 - k] by {
        lemma_falling_upper(idx, n, k);
        lemma_falling_lower(idx, n, k);
    }
}

/// A permutation of the positions below `n` reaches every one of them.
pub proof fn lemma_index_permutation_onto(idx: Seq<int>, n: nat)
    requires
        is_index_permutation(idx, n),
    ensures
        forall|t: int| 0 <= t < n ==> #[trigger] idx.contains(t),
{
    assert(idx.no_duplicates()) by {
        assert forall|a: int, b: int| 0 <= a < idx.len() && 0 <= b < idx.len() && a != b implies idx[a]
            != idx[b] by {
            if a < b {
                assert(idx[a] != idx[b]);
            } else {
                assert(idx[b] != idx[a]);
            }
        }
    }
    idx.unique_seq_to_set();
    let range = set_int_range(0, n as int);
    lemma_int_range(0, n as int);
    assert(idx.to_set().subset_of(range)) by {
        assert forall|t: int| idx.to_set().contains(t) implies range.contains(t) by {
            let k = choose|k: int| 0 <= k < idx.len() && idx[k] == t;
            assert(0 <= idx[k] < n);
        }
    }
    lemma_len_subset(idx.to_set(), range);
    lemma_subset_equality(idx.to_set(), range);
    assert forall|t: int| 0 <= t < n implies #[trigger] idx.contains(t) by {
        assert(range.contains(t));
        assert(idx.to_set().contains(t));
    }
}

/// Ordering most recent first drops no item, and the item it lists first
/// is at least as recent as every item it was given.
pub proof fn law_newest_listed_first<T: Stamped>(s: Seq<T>, r: Seq<T>)
    requires
        newest_first(r),
        exists|idx: Seq<int>| stable_reorder(s, r, idx),
    ensures
        forall|i: int| 0 <= i < s.len() ==> r.contains(#[trigger] s[i]),
        s.len() > 0 ==> forall|i: int| 0 <= i < s.len() ==> !ts_before(r[0].stamp(), #[trigger] s[i].stamp()),
{
    let idx = choose|idx: Seq<int>| stable_reorder(s, r, idx);
    lemma_index_permutation_onto(idx, s.len());
    assert forall|i: int| 0 <= i < s.len() implies r.contains(#[trigger] s[i]) by {
        assert(idx.contains(i));
        let k = choose|k: int| 0 <= k < idx.len() && idx[k] == i;
        assert(r[k] == s[idx[k]]);
    }
    if s.len() > 0 {
        assert forall|i: int| 0 <= i < s.len() implies !ts_before(r[0].stamp(), #[trigger] s[i].stamp()) by {
            assert(idx.contains(i));
            let k = choose|k: int| 0 <= k < idx.len() && idx[k] == i;
            assert(r[k] == s[idx[k]]);
            if k > 0 {
                assert(!ts_before(r[0].stamp(), r[k].stamp()));
            }
        }
    }
}

} // verus!
