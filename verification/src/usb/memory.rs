use vstd::prelude::*;

use crate::usb::error::UsbDriverError;
use crate::usb::memory::alignment::{
    align_up, align_up_spec, is_aligned_spec, is_pow2, lemma_align_up, lemma_aligned_is_multiple,
};

pub mod alignment;
pub mod buffer;

pub use buffer::{ScatterGatherList, UsbBuffer};

verus! {

/// The first byte past a block given as (offset, size).
pub open spec fn block_end(b: (usize, usize)) -> int {
    b.0 + b.1
}

/// Two blocks share no byte.
pub open spec fn disjoint(a: (usize, usize), b: (usize, usize)) -> bool {
    block_end(a) <= b.0 || block_end(b) <= a.0
}

/// Blocks sorted by strictly increasing offset, none reaching into the next, all ending by `limit`.
pub open spec fn blocks_ordered(s: Seq<(usize, usize)>, limit: int) -> bool {
    &&& forall|i: int| 0 <= i < s.len() ==> block_end(#[trigger] s[i]) <= limit
    &&& forall|i: int, j: int|
        #![trigger s[i], s[j]]
        0 <= i < j < s.len() ==> s[i].0 < s[j].0 && block_end(s[i]) <= s[j].0
}

/// Every block has at least one byte.
pub open spec fn all_nonempty(s: Seq<(usize, usize)>) -> bool {
    forall|i: int| 0 <= i < s.len() ==> (#[trigger] s[i]).1 > 0
}

/// No block ends exactly where the next one starts.
pub open spec fn none_touching(s: Seq<(usize, usize)>) -> bool {
    forall|i: int| 0 <= i < s.len() - 1 ==> block_end(#[trigger] s[i]) != s[i + 1].0
}

/// Total size of the blocks.
pub open spec fn sum_sizes(s: Seq<(usize, usize)>) -> int
    decreases s.len(),
{
    if s.len() == 0 {
        0
    } else {
        sum_sizes(s.drop_last()) + s.last().1
    }
}

/// The blocks of `s` with the entry for offset `k` set to size `v`, kept in order of offset.
pub open spec fn insert_sorted(s: Seq<(usize, usize)>, k: usize, v: usize) -> Seq<(usize, usize)>
    decreases s.len(),
{
    if s.len() == 0 {
        seq![(k, v)]
    } else if k < s[0].0 {
        seq![(k, v)] + s
    } else if k == s[0].0 {
        seq![(k, v)] + s.drop_first()
    } else {
        seq![s[0]] + insert_sorted(s.drop_first(), k, v)
    }
}

/// `b` appended to already merged blocks, joined with the last one where they touch.
pub open spec fn merge_into(acc: Seq<(usize, usize)>, b: (usize, usize)) -> Seq<(usize, usize)> {
    if acc.len() > 0 && block_end(acc.last()) == b.0 {
        acc.drop_last().push((acc.last().0, (acc.last().1 + b.1) as usize))
    } else {
        acc.push(b)
    }
}

/// The blocks of `s`, in order, with every run of touching blocks joined into one.
pub open spec fn coalesce(s: Seq<(usize, usize)>) -> Seq<(usize, usize)>
    decreases s.len(),
{
    if s.len() == 0 {
        Seq::empty()
    } else {
        merge_into(coalesce(s.drop_last()), s.last())
    }
}

/// The size of `s` splits at any index.
pub proof fn lemma_sum_split(s: Seq<(usize, usize)>, k: int)
    requires
        0 <= k <= s.len(),
    ensures
        sum_sizes(s) == sum_sizes(s.take(k)) + sum_sizes(s.skip(k)),
    decreases s.len(),
{
    if k == s.len() {
        assert(s.take(k) =~= s);
        assert(s.skip(k) =~= Seq::<(usize, usize)>::empty());
    } else {
        lemma_sum_split(s.drop_last(), k);
        assert(s.drop_last().take(k) =~= s.take(k));
        assert(s.skip(k).drop_last() =~= s.drop_last().skip(k));
    }
}

/// Sizes are never negative.
pub proof fn lemma_sum_nonneg(s: Seq<(usize, usize)>)
    ensures
        sum_sizes(s) >= 0,
    decreases s.len(),
{
    if s.len() > 0 {
        lemma_sum_nonneg(s.drop_last());
    }
}

/// The size of a sequence of one block.
pub proof fn lemma_sum_single(x: (usize, usize))
    ensures
        sum_sizes(seq![x]) == x.1,
{
    assert(seq![x].drop_last() =~= Seq::<(usize, usize)>::empty());
    assert(sum_sizes(Seq::<(usize, usize)>::empty()) == 0);
    assert(seq![x].last() == x);
}

/// The size of a concatenation.
pub proof fn lemma_sum_concat(a: Seq<(usize, usize)>, b: Seq<(usize, usize)>)
    ensures
        sum_sizes(a + b) == sum_sizes(a) + sum_sizes(b),
{
    lemma_sum_split(a + b, a.len() as int);
    assert((a + b).take(a.len() as int) =~= a);
    assert((a + b).skip(a.len() as int) =~= b);
}

/// Replacing, inserting and removing one block changes the total by that block.
pub proof fn lemma_sum_edits(s: Seq<(usize, usize)>, i: int, x: (usize, usize))
    ensures
        0 <= i < s.len() ==> sum_sizes(s.update(i, x)) == sum_sizes(s) - s[i].1 + x.1,
        0 <= i <= s.len() ==> sum_sizes(s.insert(i, x)) == sum_sizes(s) + x.1,
        0 <= i < s.len() ==> sum_sizes(s.remove(i)) == sum_sizes(s) - s[i].1,
{
    lemma_sum_single(x);
    if 0 <= i < s.len() {
        lemma_sum_split(s, i);
        lemma_sum_split(s.skip(i), 1);
        assert(s.skip(i).take(1) =~= seq![s[i]]);
        lemma_sum_single(s[i]);
        assert(s.skip(i).skip(1) =~= s.skip(i + 1));
        assert(s.update(i, x) =~= s.take(i) + seq![x] + s.skip(i + 1));
        lemma_sum_concat(s.take(i) + seq![x], s.skip(i + 1));
        lemma_sum_concat(s.take(i), seq![x]);
        assert(s.remove(i) =~= s.take(i) + s.skip(i + 1));
        lemma_sum_concat(s.take(i), s.skip(i + 1));
    }
    if 0 <= i <= s.len() {
        lemma_sum_split(s, i);
        assert(s.insert(i, x) =~= s.take(i) + seq![x] + s.skip(i));
        lemma_sum_concat(s.take(i) + seq![x], s.skip(i));
        lemma_sum_concat(s.take(i), seq![x]);
    }
}

/// Offsets strictly increase along `s`.
pub open spec fn keys_sorted(s: Seq<(usize, usize)>) -> bool {
    forall|i: int, j: int| #![trigger s[i], s[j]] 0 <= i < j < s.len() ==> s[i].0 < s[j].0
}

/// Where a key goes in a sorted sequence: after every smaller key, at or before the rest.
pub open spec fn insert_position(s: Seq<(usize, usize)>, k: usize, p: int) -> bool {
    &&& 0 <= p <= s.len()
    &&& forall|j: int| 0 <= j < p ==> (#[trigger] s[j]).0 < k
    &&& p < s.len() ==> s[p].0 >= k
}

/// Inserting into a sorted sequence replaces the entry with that key, or adds one at its place.
pub proof fn lemma_insert_sorted_shape(s: Seq<(usize, usize)>, k: usize, v: usize, p: int)
    requires
        keys_sorted(s),
        insert_position(s, k, p),
    ensures
        insert_sorted(s, k, v) == (if p < s.len() && s[p].0 == k {
            s.update(p, (k, v))
        } else {
            s.insert(p, (k, v))
        }),
    decreases s.len(),
{
    if s.len() == 0 {
        assert(s.insert(p, (k, v)) =~= seq![(k, v)]);
    } else if k < s[0].0 {
        assert(p == 0);
        assert(s.insert(p, (k, v)) =~= seq![(k, v)] + s);
    } else if k == s[0].0 {
        assert(p == 0);
        assert(s.update(p, (k, v)) =~= seq![(k, v)] + s.drop_first());
    } else {
        assert(p > 0);
        let t = s.drop_first();
        assert(insert_position(t, k, p - 1)) by {
            assert forall|j: int| 0 <= j < p - 1 implies (#[trigger] t[j]).0 < k by {
                assert(t[j] == s[j + 1]);
            }
        }
        lemma_insert_sorted_shape(t, k, v, p - 1);
        if p < s.len() && s[p].0 == k {
            assert(s.update(p, (k, v)) =~= seq![s[0]] + t.update(p - 1, (k, v)));
        } else {
            assert(s.insert(p, (k, v)) =~= seq![s[0]] + t.insert(p - 1, (k, v)));
        }
    }
}

/// Inserting into a sequence sorted by key keeps it sorted by key.
pub proof fn lemma_insert_sorted_keys(s: Seq<(usize, usize)>, k: usize, v: usize)
    requires
        keys_sorted(s),
    ensures
        keys_sorted(insert_sorted(s, k, v)),
        forall|j: int| 0 <= j < insert_sorted(s, k, v).len() ==> (#[trigger] insert_sorted(s, k, v)[j]).0 == k || exists|m: int| 0 <= m < s.len() && s[m].0 == insert_sorted(s, k, v)[j].0,
    decreases s.len(),
{
    let r = insert_sorted(s, k, v);
    if s.len() > 0 && k > s[0].0 {
        let t = s.drop_first();
        assert(keys_sorted(t)) by {
            assert forall|a: int, b: int| #![trigger t[a], t[b]] 0 <= a < b < t.len() implies t[a].0 < t[b].0 by {
                assert(s[a + 1].0 < s[b + 1].0);
            }
        }
        lemma_insert_sorted_keys(t, k, v);
        let u = insert_sorted(t, k, v);
        assert(r == seq![s[0]] + u);
        assert forall|j: int| 0 <= j < r.len() implies (#[trigger] r[j]).0 == k || exists|m: int| 0 <= m < s.len() && s[m].0 == r[j].0 by {
            if j == 0 {
                assert(s[0].0 == r[0].0);
            } else {
                assert(r[j] == u[j - 1]);
                if u[j - 1].0 != k {
                    let m = choose|m: int| 0 <= m < t.len() && t[m].0 == u[j - 1].0;
                    assert(s[m + 1].0 == r[j].0);
                }
            }
        }
        assert forall|a: int, b: int| #![trigger r[a], r[b]] 0 <= a < b < r.len() implies r[a].0 < r[b].0 by {
            if a > 0 {
                assert(u[a - 1].0 < u[b - 1].0);
            } else {
                assert(r[b] == u[b - 1]);
                if u[b - 1].0 != k {
                    let m = choose|m: int| 0 <= m < t.len() && t[m].0 == u[b - 1].0;
                    assert(s[0].0 < s[m + 1].0);
                }
            }
        }
    } else if s.len() > 0 {
        assert forall|j: int| 0 <= j < r.len() implies (#[trigger] r[j]).0 == k || exists|m: int| 0 <= m < s.len() && s[m].0 == r[j].0 by {
            if j > 0 {
                if k < s[0].0 {
                    assert(s[j - 1].0 == r[j].0);
                } else {
                    assert(s[j].0 == r[j].0);
                }
            }
        }
        assert forall|a: int, b: int| #![trigger r[a], r[b]] 0 <= a < b < r.len() implies r[a].0 < r[b].0 by {
            if k < s[0].0 {
                if a > 0 {
                    assert(s[a - 1].0 < s[b - 1].0);
                } else if b > 1 {
                    assert(s[0].0 < s[b - 1].0);
                }
            } else {
                assert(s[a].0 < s[b].0);
            }
        }
    }
}

/// What a sequence holds after one block is replaced, inserted or removed.
pub proof fn lemma_contains_edits(s: Seq<(usize, usize)>, i: int, x: (usize, usize), y: (usize, usize))
    ensures
        0 <= i < s.len() && s.update(i, x).contains(y) ==> y == x || s.remove(i).contains(y),
        0 <= i <= s.len() && s.insert(i, x).contains(y) ==> y == x || s.contains(y),
        0 <= i < s.len() && s.remove(i).contains(y) ==> s.contains(y),
{
    if 0 <= i < s.len() && s.update(i, x).contains(y) && y != x {
        let j = choose|j: int| 0 <= j < s.update(i, x).len() && s.update(i, x)[j] == y;
        if j < i {
            assert(s.remove(i)[j] == y);
        } else {
            assert(s.remove(i)[j - 1] == y);
        }
    }
    if 0 <= i <= s.len() && s.insert(i, x).contains(y) && y != x {
        let j = choose|j: int| 0 <= j < s.insert(i, x).len() && s.insert(i, x)[j] == y;
        if j < i {
            assert(s[j] == y);
        } else {
            assert(s[j - 1] == y);
        }
    }
    if 0 <= i < s.len() && s.remove(i).contains(y) {
        let j = choose|j: int| 0 <= j < s.remove(i).len() && s.remove(i)[j] == y;
        if j < i {
            assert(s[j] == y);
        } else {
            assert(s[j + 1] == y);
        }
    }
}

/// In ordered blocks, every other block shares no byte with block `i`.
pub proof fn lemma_others_disjoint(s: Seq<(usize, usize)>, limit: int, i: int)
    requires
        blocks_ordered(s, limit),
        0 <= i < s.len(),
    ensures
        forall|y: (usize, usize)| #[trigger] s.remove(i).contains(y) ==> disjoint(y, s[i]) && s.contains(y),
{
    assert forall|y: (usize, usize)| #[trigger] s.remove(i).contains(y) implies disjoint(y, s[i])
        && s.contains(y) by {
        let j = choose|j: int| 0 <= j < s.remove(i).len() && s.remove(i)[j] == y;
        if j < i {
            assert(s[j] == y);
            assert(s[j].0 < s[i].0 && block_end(s[j]) <= s[i].0);
        } else {
            assert(s[j + 1] == y);
            assert(s[i].0 < s[j + 1].0 && block_end(s[i]) <= s[j + 1].0);
        }
    }
}

/// Non-empty blocks stay non-empty under the same edits.
pub proof fn lemma_nonempty_edits(s: Seq<(usize, usize)>, i: int, x: (usize, usize))
    requires
        all_nonempty(s),
        x.1 > 0,
    ensures
        0 <= i < s.len() ==> all_nonempty(s.update(i, x)),
        0 <= i <= s.len() ==> all_nonempty(s.insert(i, x)),
        0 <= i < s.len() ==> all_nonempty(s.remove(i)),
{
    if 0 <= i < s.len() {
        let t = s.update(i, x);
        assert forall|a: int| 0 <= a < t.len() implies (#[trigger] t[a]).1 > 0 by {
            if a != i {
                assert(s[a].1 > 0);
            }
        }
        let r = s.remove(i);
        assert forall|a: int| 0 <= a < r.len() implies (#[trigger] r[a]).1 > 0 by {
            if a < i {
                assert(s[a].1 > 0);
            } else {
                assert(s[a + 1].1 > 0);
            }
        }
    }
    if 0 <= i <= s.len() {
        let t = s.insert(i, x);
        assert forall|a: int| 0 <= a < t.len() implies (#[trigger] t[a]).1 > 0 by {
            if a < i {
                assert(s[a].1 > 0);
            } else if a > i {
                assert(s[a - 1].1 > 0);
            }
        }
    }
}

/// Inserting a non-empty block that overlaps none of `s` keeps the blocks ordered and non-empty,
/// adds its size, and adds exactly that block.
#[verifier::spinoff_prover]
#[verifier::rlimit(40)]
pub proof fn lemma_insert_sorted_props(s: Seq<(usize, usize)>, limit: int, x: (usize, usize))
    requires
        blocks_ordered(s, limit),
        all_nonempty(s),
        x.1 > 0,
        block_end(x) <= limit,
        forall|y: (usize, usize)| #[trigger] s.contains(y) ==> disjoint(y, x),
    ensures
        blocks_ordered(insert_sorted(s, x.0, x.1), limit),
        all_nonempty(insert_sorted(s, x.0, x.1)),
        sum_sizes(insert_sorted(s, x.0, x.1)) == sum_sizes(s) + x.1,
        forall|y: (usize, usize)| #[trigger] insert_sorted(s, x.0, x.1).contains(y) <==> (y == x
            || s.contains(y)),
    decreases s.len(),
{
    let r = insert_sorted(s, x.0, x.1);
    if s.len() == 0 {
        lemma_sum_single(x);
        assert(sum_sizes(s) == 0);
        assert forall|y: (usize, usize)| #[trigger] r.contains(y) <==> (y == x || s.contains(y)) by {
            if r.contains(y) {
                let j = choose|j: int| 0 <= j < r.len() && r[j] == y;
            }
            if y == x {
                assert(r[0] == y);
            }
        }
    } else {
        assert(s.contains(s[0]));
        assert(disjoint(s[0], x));
        assert(s[0].1 > 0);
        if x.0 < s[0].0 {
            assert(r == seq![x] + s);
            lemma_sum_concat(seq![x], s);
            lemma_sum_single(x);
            assert forall|a: int, b: int| #![trigger r[a], r[b]] 0 <= a < b < r.len() implies r[a].0
                < r[b].0 && block_end(r[a]) <= r[b].0 by {
                if a > 0 {
                    assert(s[a - 1].0 < s[b - 1].0 && block_end(s[a - 1]) <= s[b - 1].0);
                } else if b > 1 {
                    assert(s[0].0 < s[b - 1].0 && block_end(s[0]) <= s[b - 1].0);
                }
            }
            assert forall|a: int| 0 <= a < r.len() implies block_end(#[trigger] r[a]) <= limit && r[a].1 > 0 by {
                if a > 0 {
                    assert(block_end(s[a - 1]) <= limit && s[a - 1].1 > 0);
                }
            }
            assert forall|y: (usize, usize)| #[trigger] r.contains(y) <==> (y == x || s.contains(y)) by {
                if r.contains(y) {
                    let j = choose|j: int| 0 <= j < r.len() && r[j] == y;
                    if j > 0 {
                        assert(s[j - 1] == y);
                    }
                }
                if y == x {
                    assert(r[0] == y);
                }
                if s.contains(y) {
                    let j = choose|j: int| 0 <= j < s.len() && s[j] == y;
                    assert(r[j + 1] == y);
                }
            }
        } else {
            assert(x.0 > s[0].0);
            let t = s.drop_first();
            assert(blocks_ordered(t, limit)) by {
                assert forall|a: int, b: int| #![trigger t[a], t[b]] 0 <= a < b < t.len() implies t[a].0
                    < t[b].0 && block_end(t[a]) <= t[b].0 by {
                    assert(s[a + 1].0 < s[b + 1].0 && block_end(s[a + 1]) <= s[b + 1].0);
                }
                assert forall|a: int| 0 <= a < t.len() implies block_end(#[trigger] t[a]) <= limit by {
                    assert(block_end(s[a + 1]) <= limit);
                }
            }
            assert(all_nonempty(t)) by {
                assert forall|a: int| 0 <= a < t.len() implies (#[trigger] t[a]).1 > 0 by {
                    assert(s[a + 1].1 > 0);
                }
            }
            assert forall|y: (usize, usize)| #[trigger] t.contains(y) implies disjoint(y, x) by {
                let j = choose|j: int| 0 <= j < t.len() && t[j] == y;
                assert(s[j + 1] == y);
                assert(s.contains(y));
            }
            lemma_insert_sorted_props(t, limit, x);
            let u = insert_sorted(t, x.0, x.1);
            assert(r == seq![s[0]] + u);
            lemma_sum_concat(seq![s[0]], u);
            lemma_sum_single(s[0]);
            lemma_sum_concat(seq![s[0]], t);
            assert(seq![s[0]] + t =~= s);
            assert(block_end(s[0]) <= x.0);
            assert forall|a: int, b: int| #![trigger r[a], r[b]] 0 <= a < b < r.len() implies r[a].0
                < r[b].0 && block_end(r[a]) <= r[b].0 by {
                if a > 0 {
                    assert(u[a - 1].0 < u[b - 1].0 && block_end(u[a - 1]) <= u[b - 1].0);
                } else {
                    assert(u.contains(u[b - 1]));
                    if u[b - 1] != x {
                        let j = choose|j: int| 0 <= j < t.len() && t[j] == u[b - 1];
                        assert(s[0].0 < s[j + 1].0 && block_end(s[0]) <= s[j + 1].0);
                    }
                }
            }
            assert forall|a: int| 0 <= a < r.len() implies block_end(#[trigger] r[a]) <= limit && r[a].1 > 0 by {
                if a > 0 {
                    assert(block_end(u[a - 1]) <= limit && u[a - 1].1 > 0);
                } else {
                    assert(block_end(s[0]) <= limit);
                }
            }
            assert forall|y: (usize, usize)| #[trigger] r.contains(y) <==> (y == x || s.contains(y)) by {
                if r.contains(y) {
                    let j = choose|j: int| 0 <= j < r.len() && r[j] == y;
                    if j > 0 {
                        assert(u[j - 1] == y);
                        assert(u.contains(y));
                        if t.contains(y) {
                            let k = choose|k: int| 0 <= k < t.len() && t[k] == y;
                            assert(s[k + 1] == y);
                        }
                    }
                }
                if y == x {
                    assert(u.contains(y));
                    let j = choose|j: int| 0 <= j < u.len() && u[j] == y;
                    assert(r[j + 1] == y);
                }
                if s.contains(y) {
                    let j = choose|j: int| 0 <= j < s.len() && s[j] == y;
                    if j > 0 {
                        assert(t[j - 1] == y);
                        assert(t.contains(y));
                        assert(u.contains(y));
                        let k = choose|k: int| 0 <= k < u.len() && u[k] == y;
                        assert(r[k + 1] == y);
                    } else {
                        assert(r[0] == y);
                    }
                }
            }
        }
    }
}

/// Ordered blocks stay ordered when one is shrunk in place, one is inserted where it fits,
/// or one is removed.
#[verifier::spinoff_prover]
#[verifier::rlimit(40)]
pub proof fn lemma_ordered_edits(s: Seq<(usize, usize)>, limit: int, i: int, x: (usize, usize))
    requires
        blocks_ordered(s, limit),
    ensures
        0 <= i < s.len() && s[i].0 <= x.0 && x.1 > 0 && block_end(x) <= block_end(s[i])
            ==> blocks_ordered(s.update(i, x), limit),
        0 <= i <= s.len() && block_end(x) <= limit && (i > 0 ==> s[i - 1].0 < x.0 && block_end(
            s[i - 1],
        ) <= x.0) && (i < s.len() ==> x.0 < s[i].0 && block_end(x) <= s[i].0)
            ==> blocks_ordered(s.insert(i, x), limit),
        0 <= i < s.len() ==> blocks_ordered(s.remove(i), limit),
{
    if 0 <= i < s.len() && s[i].0 <= x.0 && x.1 > 0 && block_end(x) <= block_end(s[i]) {
        let t = s.update(i, x);
        assert forall|a: int, b: int| #![trigger t[a], t[b]] 0 <= a < b < t.len() implies t[a].0
            < t[b].0 && block_end(t[a]) <= t[b].0 by {
            assert(s[a].0 < s[b].0 && block_end(s[a]) <= s[b].0);
        }
        assert forall|a: int| 0 <= a < t.len() implies block_end(#[trigger] t[a]) <= limit by {
            assert(block_end(s[a]) <= limit);
        }
    }
    if 0 <= i <= s.len() && block_end(x) <= limit && (i > 0 ==> s[i - 1].0 < x.0 && block_end(
        s[i - 1],
    ) <= x.0) && (i < s.len() ==> x.0 < s[i].0 && block_end(x) <= s[i].0) {
        let t = s.insert(i, x);
        assert forall|a: int, b: int| #![trigger t[a], t[b]] 0 <= a < b < t.len() implies t[a].0
            < t[b].0 && block_end(t[a]) <= t[b].0 by {
            if b < i {
                assert(s[a].0 < s[b].0 && block_end(s[a]) <= s[b].0);
            } else if b == i {
                if a < i - 1 {
                    assert(s[a].0 < s[i - 1].0 && block_end(s[a]) <= s[i - 1].0);
                }
            } else if a < i {
                assert(s[a].0 < s[b - 1].0 && block_end(s[a]) <= s[b - 1].0);
                if a < i - 1 {
                    assert(s[a].0 < s[i - 1].0 && block_end(s[a]) <= s[i - 1].0);
                }
            } else if a == i {
                if b - 1 > i {
                    assert(s[i].0 < s[b - 1].0 && block_end(s[i]) <= s[b - 1].0);
                }
            } else {
                assert(s[a - 1].0 < s[b - 1].0 && block_end(s[a - 1]) <= s[b - 1].0);
            }
        }
        assert forall|a: int| 0 <= a < t.len() implies block_end(#[trigger] t[a]) <= limit by {
            if a < i {
                assert(block_end(s[a]) <= limit);
            } else if a > i {
                assert(block_end(s[a - 1]) <= limit);
            }
        }
    }
    if 0 <= i < s.len() {
        let t = s.remove(i);
        assert forall|a: int, b: int| #![trigger t[a], t[b]] 0 <= a < b < t.len() implies t[a].0
            < t[b].0 && block_end(t[a]) <= t[b].0 by {
            if b < i {
                assert(s[a].0 < s[b].0 && block_end(s[a]) <= s[b].0);
            } else if a < i {
                assert(s[a].0 < s[b + 1].0 && block_end(s[a]) <= s[b + 1].0);
            } else {
                assert(s[a + 1].0 < s[b + 1].0 && block_end(s[a + 1]) <= s[b + 1].0);
            }
        }
        assert forall|a: int| 0 <= a < t.len() implies block_end(#[trigger] t[a]) <= limit by {
            if a < i {
                assert(block_end(s[a]) <= limit);
            } else {
                assert(block_end(s[a + 1]) <= limit);
            }
        }
    }
}

/// The size of a sequence with one more block at the end.
pub proof fn lemma_sum_push(s: Seq<(usize, usize)>, x: (usize, usize))
    ensures
        sum_sizes(s.push(x)) == sum_sizes(s) + x.1,
{
    assert(s.push(x).drop_last() =~= s);
}

/// Joining touching blocks keeps them ordered, inside the limit, non-empty and of the same
/// total size, and leaves no two of them touching; the last one still ends where `s` ends.
#[verifier::spinoff_prover]
#[verifier::rlimit(40)]
pub proof fn lemma_coalesce(s: Seq<(usize, usize)>, limit: int)
    requires
        blocks_ordered(s, limit),
        all_nonempty(s),
        limit <= usize::MAX,
    ensures
        blocks_ordered(coalesce(s), limit),
        all_nonempty(coalesce(s)),
        none_touching(coalesce(s)),
        sum_sizes(coalesce(s)) == sum_sizes(s),
        coalesce(s).len() <= s.len(),
        s.len() > 0 ==> coalesce(s).len() > 0 && block_end(coalesce(s).last()) == block_end(
            s.last(),
        ),
    decreases s.len(),
{
    if s.len() > 0 {
        let r = s.drop_last();
        let b = s.last();
        assert(blocks_ordered(r, limit)) by {
            assert forall|a: int, c: int| #![trigger r[a], r[c]] 0 <= a < c < r.len() implies r[a].0
                < r[c].0 && block_end(r[a]) <= r[c].0 by {
                assert(s[a].0 < s[c].0 && block_end(s[a]) <= s[c].0);
            }
            assert forall|a: int| 0 <= a < r.len() implies block_end(#[trigger] r[a]) <= limit by {
                assert(block_end(s[a]) <= limit);
            }
        }
        assert(all_nonempty(r)) by {
            assert forall|a: int| 0 <= a < r.len() implies (#[trigger] r[a]).1 > 0 by {
                assert(s[a].1 > 0);
            }
        }
        lemma_coalesce(r, limit);
        let c = coalesce(r);
        assert(block_end(s[s.len() - 1]) <= limit);
        assert(s[s.len() - 1].1 > 0);
        if r.len() > 0 {
            assert(s[r.len() - 1].0 < s[s.len() - 1].0 && block_end(s[r.len() - 1]) <= s[s.len()
                - 1].0);
        }
        if c.len() > 0 && block_end(c.last()) == b.0 {
            let m = (c.last().0, (c.last().1 + b.1) as usize);
            let t = c.drop_last().push(m);
            assert(coalesce(s) == t);
            assert(c[c.len() - 1].1 > 0);
            assert(block_end(m) == block_end(b));
            assert forall|a: int, d: int| #![trigger t[a], t[d]] 0 <= a < d < t.len() implies t[a].0
                < t[d].0 && block_end(t[a]) <= t[d].0 by {
                assert(c[a].0 < c[d].0 && block_end(c[a]) <= c[d].0);
            }
            assert forall|a: int| 0 <= a < t.len() implies block_end(#[trigger] t[a]) <= limit by {
                assert(block_end(c[a]) <= limit);
            }
            assert forall|a: int| 0 <= a < t.len() implies (#[trigger] t[a]).1 > 0 by {
                assert(c[a].1 > 0);
            }
            assert forall|a: int| 0 <= a < t.len() - 1 implies block_end(#[trigger] t[a]) != t[a
                + 1].0 by {
                assert(block_end(c[a]) != c[a + 1].0);
            }
            lemma_sum_push(c.drop_last(), m);
            lemma_sum_push(c.drop_last(), c.last());
            assert(c.drop_last().push(c.last()) =~= c);
            lemma_sum_push(r, b);
            assert(r.push(b) =~= s);
        } else {
            let t = c.push(b);
            assert(coalesce(s) == t);
            assert forall|a: int, d: int| #![trigger t[a], t[d]] 0 <= a < d < t.len() implies t[a].0
                < t[d].0 && block_end(t[a]) <= t[d].0 by {
                if d < c.len() {
                    assert(c[a].0 < c[d].0 && block_end(c[a]) <= c[d].0);
                } else {
                    assert(c[c.len() - 1].1 > 0);
                    if a < c.len() - 1 {
                        assert(c[a].0 < c[c.len() - 1].0 && block_end(c[a]) <= c[c.len() - 1].0);
                    }
                }
            }
            assert forall|a: int| 0 <= a < t.len() implies block_end(#[trigger] t[a]) <= limit by {
                if a < c.len() {
                    assert(block_end(c[a]) <= limit);
                }
            }
            assert forall|a: int| 0 <= a < t.len() implies (#[trigger] t[a]).1 > 0 by {
                if a < c.len() {
                    assert(c[a].1 > 0);
                }
            }
            assert forall|a: int| 0 <= a < t.len() - 1 implies block_end(#[trigger] t[a]) != t[a
                + 1].0 by {
                if a < c.len() - 1 {
                    assert(block_end(c[a]) != c[a + 1].0);
                }
            }
            lemma_sum_push(c, b);
            lemma_sum_push(r, b);
            assert(r.push(b) =~= s);
        }
    }
}

/// Some block of `s` holds byte `o`.
pub open spec fn covers(s: Seq<(usize, usize)>, o: int) -> bool {
    exists|i: int| 0 <= i < s.len() && (#[trigger] s[i]).0 <= o < block_end(s[i])
}

/// Joining touching blocks covers exactly the bytes the blocks covered.
pub proof fn lemma_coalesce_covers(s: Seq<(usize, usize)>, limit: int, o: int)
    requires
        blocks_ordered(s, limit),
        all_nonempty(s),
        limit <= usize::MAX,
    ensures
        covers(coalesce(s), o) <==> covers(s, o),
    decreases s.len(),
{
    if s.len() > 0 {
        let r = s.drop_last();
        let b = s.last();
        lemma_ordered_take(s, limit, s.len() - 1);
        assert(s.take(s.len() - 1) =~= r);
        lemma_coalesce_covers(r, limit, o);
        lemma_coalesce(r, limit);
        assert(block_end(s[s.len() - 1]) <= limit);
        let c = coalesce(r);
        let t = coalesce(s);
        // covering by s is covering by r or by its last block
        assert(covers(s, o) <==> covers(r, o) || (b.0 <= o < block_end(b))) by {
            if covers(s, o) {
                let i = choose|i: int| 0 <= i < s.len() && (#[trigger] s[i]).0 <= o < block_end(s[i]);
                if i < r.len() {
                    assert(r[i] == s[i]);
                }
            }
            if covers(r, o) {
                let i = choose|i: int| 0 <= i < r.len() && (#[trigger] r[i]).0 <= o < block_end(r[i]);
                assert(s[i] == r[i]);
            }
            if b.0 <= o < block_end(b) {
                assert(s[s.len() - 1] == b);
            }
        }
        if c.len() > 0 && block_end(c.last()) == b.0 {
            let m = (c.last().0, (c.last().1 + b.1) as usize);
            let d = c.drop_last();
            assert(t == d.push(m));
            assert(block_end(m) == block_end(b));
            assert(covers(c, o) <==> covers(d, o) || (c.last().0 <= o < block_end(c.last()))) by {
                if covers(c, o) {
                    let i = choose|i: int| 0 <= i < c.len() && (#[trigger] c[i]).0 <= o < block_end(c[i]);
                    if i < d.len() {
                        assert(d[i] == c[i]);
                    }
                }
                if covers(d, o) {
                    let i = choose|i: int| 0 <= i < d.len() && (#[trigger] d[i]).0 <= o < block_end(d[i]);
                    assert(c[i] == d[i]);
                }
                if c.last().0 <= o < block_end(c.last()) {
                    assert(c[c.len() - 1] == c.last());
                }
            }
            assert(covers(t, o) <==> covers(d, o) || (m.0 <= o < block_end(m))) by {
                if covers(t, o) {
                    let i = choose|i: int| 0 <= i < t.len() && (#[trigger] t[i]).0 <= o < block_end(t[i]);
                    if i < d.len() {
                        assert(d[i] == t[i]);
                    }
                }
                if covers(d, o) {
                    let i = choose|i: int| 0 <= i < d.len() && (#[trigger] d[i]).0 <= o < block_end(d[i]);
                    assert(t[i] == d[i]);
                }
                if m.0 <= o < block_end(m) {
                    assert(t[t.len() - 1] == m);
                }
            }
        } else {
            assert(t == c.push(b));
            assert(covers(t, o) <==> covers(c, o) || (b.0 <= o < block_end(b))) by {
                if covers(t, o) {
                    let i = choose|i: int| 0 <= i < t.len() && (#[trigger] t[i]).0 <= o < block_end(t[i]);
                    if i < c.len() {
                        assert(c[i] == t[i]);
                    }
                }
                if covers(c, o) {
                    let i = choose|i: int| 0 <= i < c.len() && (#[trigger] c[i]).0 <= o < block_end(c[i]);
                    assert(t[i] == c[i]);
                }
                if b.0 <= o < block_end(b) {
                    assert(t[t.len() - 1] == b);
                }
            }
        }
    }
}

/// Inserting a block into an ordered list that holds none of its bytes covers the bytes the
/// list covered and those of the block.
pub proof fn lemma_covers_insert(s: Seq<(usize, usize)>, limit: int, x: (usize, usize), o: int)
    requires
        blocks_ordered(s, limit),
        all_nonempty(s),
        x.1 > 0,
        block_end(x) <= limit,
        forall|y: (usize, usize)| #[trigger] s.contains(y) ==> disjoint(y, x),
    ensures
        covers(insert_sorted(s, x.0, x.1), o) <==> covers(s, o) || (x.0 <= o < block_end(x)),
{
    lemma_insert_sorted_props(s, limit, x);
    let t = insert_sorted(s, x.0, x.1);
    if covers(t, o) {
        let i = choose|i: int| 0 <= i < t.len() && (#[trigger] t[i]).0 <= o < block_end(t[i]);
        assert(t.contains(t[i]));
        if t[i] != x {
            assert(s.contains(t[i]));
            let k = choose|k: int| 0 <= k < s.len() && s[k] == t[i];
            assert(s[k].0 <= o < block_end(s[k]));
        }
    }
    if covers(s, o) {
        let k = choose|k: int| 0 <= k < s.len() && (#[trigger] s[k]).0 <= o < block_end(s[k]);
        assert(s.contains(s[k]));
        assert(t.contains(s[k]));
        let i = choose|i: int| 0 <= i < t.len() && t[i] == s[k];
        assert(t[i].0 <= o < block_end(t[i]));
    }
    if x.0 <= o < block_end(x) {
        assert(t.contains(x));
        let i = choose|i: int| 0 <= i < t.len() && t[i] == x;
        assert(t[i].0 <= o < block_end(t[i]));
    }
}

/// Joining the touching free blocks keeps every byte that was free free and no other, keeps
/// the total size, and leaves a gap between any two consecutive blocks.
pub proof fn lemma_coalesce_law(s: Seq<(usize, usize)>, limit: int)
    requires
        blocks_ordered(s, limit),
        all_nonempty(s),
        limit <= usize::MAX,
    ensures
        forall|o: int| #[trigger] covers(coalesce(s), o) <==> covers(s, o),
        sum_sizes(coalesce(s)) == sum_sizes(s),
        forall|i: int| 0 <= i < coalesce(s).len() - 1 ==> block_end(#[trigger] coalesce(s)[i]) < coalesce(s)[i + 1].0,
{
    lemma_coalesce(s, limit);
    assert forall|o: int| #[trigger] covers(coalesce(s), o) <==> covers(s, o) by {
        lemma_coalesce_covers(s, limit, o);
    }
    let c = coalesce(s);
    assert forall|i: int| 0 <= i < c.len() - 1 implies block_end(#[trigger] c[i]) < c[i + 1].0 by {
        assert(block_end(c[i]) <= c[i + 1].0);
        assert(block_end(c[i]) != c[i + 1].0);
    }
}

/// A block that shares no byte with any of `s` shares none with the joined blocks either.
#[verifier::spinoff_prover]
#[verifier::rlimit(40)]
pub proof fn lemma_coalesce_disjoint(s: Seq<(usize, usize)>, limit: int, x: (usize, usize))
    requires
        blocks_ordered(s, limit),
        all_nonempty(s),
        limit <= usize::MAX,
        x.1 > 0,
        forall|f: (usize, usize)| #[trigger] s.contains(f) ==> disjoint(f, x),
    ensures
        forall|c: (usize, usize)| #[trigger] coalesce(s).contains(c) ==> disjoint(c, x),
    decreases s.len(),
{
    if s.len() > 0 {
        let r = s.drop_last();
        let b = s.last();
        assert(blocks_ordered(r, limit)) by {
            assert forall|a: int, c: int| #![trigger r[a], r[c]] 0 <= a < c < r.len() implies r[a].0
                < r[c].0 && block_end(r[a]) <= r[c].0 by {
                assert(s[a].0 < s[c].0 && block_end(s[a]) <= s[c].0);
            }
            assert forall|a: int| 0 <= a < r.len() implies block_end(#[trigger] r[a]) <= limit by {
                assert(block_end(s[a]) <= limit);
            }
        }
        assert(all_nonempty(r)) by {
            assert forall|a: int| 0 <= a < r.len() implies (#[trigger] r[a]).1 > 0 by {
                assert(s[a].1 > 0);
            }
        }
        assert forall|f: (usize, usize)| #[trigger] r.contains(f) implies disjoint(f, x) by {
            let j = choose|j: int| 0 <= j < r.len() && r[j] == f;
            assert(s[j] == f);
            assert(s.contains(f));
        }
        assert(s.contains(b)) by {
            assert(s[s.len() - 1] == b);
        }
        lemma_coalesce_disjoint(r, limit, x);
        lemma_coalesce(r, limit);
        let c = coalesce(r);
        if c.len() > 0 && block_end(c.last()) == b.0 {
            let m = (c.last().0, (c.last().1 + b.1) as usize);
            let t = c.drop_last().push(m);
            assert(coalesce(s) == t);
            assert(c.contains(c.last())) by {
                assert(c[c.len() - 1] == c.last());
            }
            assert(r.len() > 0);
            assert(block_end(s[r.len() - 1]) <= limit);
            assert(block_end(c.last()) <= limit);
            assert(block_end(b) <= limit) by {
                assert(block_end(s[s.len() - 1]) <= limit);
            }
            assert forall|y: (usize, usize)| #[trigger] t.contains(y) implies disjoint(y, x) by {
                let j = choose|j: int| 0 <= j < t.len() && t[j] == y;
                if j < t.len() - 1 {
                    assert(c[j] == y);
                    assert(c.contains(y));
                }
            }
        } else {
            let t = c.push(b);
            assert(coalesce(s) == t);
            assert forall|y: (usize, usize)| #[trigger] t.contains(y) implies disjoint(y, x) by {
                let j = choose|j: int| 0 <= j < t.len() && t[j] == y;
                if j < c.len() {
                    assert(c[j] == y);
                    assert(c.contains(y));
                }
            }
        }
    }
}

/// A prefix of ordered blocks is ordered.
pub proof fn lemma_ordered_take(s: Seq<(usize, usize)>, limit: int, k: int)
    requires
        blocks_ordered(s, limit),
        all_nonempty(s),
        0 <= k <= s.len(),
    ensures
        blocks_ordered(s.take(k), limit),
        all_nonempty(s.take(k)),
{
    let t = s.take(k);
    assert forall|a: int, b: int| #![trigger t[a], t[b]] 0 <= a < b < t.len() implies t[a].0
        < t[b].0 && block_end(t[a]) <= t[b].0 by {
        assert(s[a].0 < s[b].0 && block_end(s[a]) <= s[b].0);
    }
    assert forall|a: int| 0 <= a < t.len() implies block_end(#[trigger] t[a]) <= limit && t[a].1 > 0 by {
        assert(block_end(s[a]) <= limit && s[a].1 > 0);
    }
}

/// The bytes that must be skipped at the start of block `b` so that its address is aligned.
pub open spec fn waste_at(base: usize, b: (usize, usize), align: usize) -> int {
    align_up_spec((base + b.0) as usize, align) - (base + b.0)
}

/// Block `b` can hold `need` bytes at an aligned address.
pub open spec fn fits(base: usize, b: (usize, usize), need: usize, align: usize) -> bool {
    b.1 >= need + waste_at(base, b, align)
}

/// The index of the first block at or after `k` that can hold `need` aligned bytes, or the
/// length of `s` where none can.
pub open spec fn first_fit_from(base: usize, s: Seq<(usize, usize)>, need: usize, align: usize, k: int) -> int
    decreases s.len() - k,
{
    if k < 0 || k >= s.len() {
        s.len() as int
    } else if fits(base, s[k], need, align) {
        k
    } else {
        first_fit_from(base, s, need, align, k + 1)
    }
}

/// The first fit is a fitting block with none fitting before it from `k` on.
pub proof fn lemma_first_fit(base: usize, s: Seq<(usize, usize)>, need: usize, align: usize, k: int)
    requires
        0 <= k <= s.len(),
    ensures
        k <= first_fit_from(base, s, need, align, k) <= s.len(),
        first_fit_from(base, s, need, align, k) < s.len() ==> fits(
            base,
            s[first_fit_from(base, s, need, align, k)],
            need,
            align,
        ),
        forall|j: int|
            k <= j < first_fit_from(base, s, need, align, k) ==> !fits(
                base,
                #[trigger] s[j],
                need,
                align,
            ),
    decreases s.len() - k,
{
    if k < s.len() && !fits(base, s[k], need, align) {
        lemma_first_fit(base, s, need, align, k + 1);
    }
}

/// The index of the first entry at or after `k` whose offset is `key`, or -1.
pub open spec fn key_index_from(s: Seq<(usize, usize)>, key: usize, k: int) -> int
    decreases s.len() - k,
{
    if k < 0 || k >= s.len() {
        -1
    } else if s[k].0 == key {
        k
    } else {
        key_index_from(s, key, k + 1)
    }
}

/// The free list after `need` aligned bytes are cut out of block `i`: what is skipped before
/// them and what is left after them stay free, where they are not empty.
pub open spec fn split_free(base: usize, s: Seq<(usize, usize)>, i: int, need: usize, align: usize) -> Seq<(usize, usize)> {
    let b = s[i];
    let w = waste_at(base, b, align);
    let rem = b.1 - need - w;
    let tail = ((b.0 + w + need) as usize, rem as usize);
    if w > 0 {
        if rem > 0 {
            s.update(i, (b.0, w as usize)).insert(i + 1, tail)
        } else {
            s.update(i, (b.0, w as usize))
        }
    } else if rem > 0 {
        s.update(i, tail)
    } else {
        s.remove(i)
    }
}

/// The pool's bookkeeping holds together: both lists ordered inside the pool, allocated blocks
/// non-empty (free ones too once the pool has a byte), no free block overlapping an allocated
/// one, and every byte of the pool in exactly one list.
pub open spec fn lists_wf(f: Seq<(usize, usize)>, a: Seq<(usize, usize)>, size: int) -> bool {
    &&& blocks_ordered(f, size)
    &&& blocks_ordered(a, size)
    &&& all_nonempty(a)
    &&& size > 0 ==> all_nonempty(f)
    &&& forall|x: (usize, usize), y: (usize, usize)|
        #[trigger] f.contains(x) && #[trigger] a.contains(y) ==> disjoint(x, y)
    &&& sum_sizes(f) + sum_sizes(a) == size
}

/// The block handed out when `need` bytes are cut from free block `i`.
pub open spec fn carved(base: usize, f: Seq<(usize, usize)>, i: int, need: usize, align: usize) -> (usize, usize) {
    ((f[i].0 + waste_at(base, f[i], align)) as usize, need)
}

/// Cutting an allocation out of a free block that fits keeps the bookkeeping whole.
#[verifier::spinoff_prover]
#[verifier::rlimit(40)]
pub proof fn lemma_carve(
    base: usize,
    f: Seq<(usize, usize)>,
    a: Seq<(usize, usize)>,
    size: int,
    i: int,
    need: usize,
    align: usize,
)
    requires
        lists_wf(f, a, size),
        size <= usize::MAX,
        0 <= i < f.len(),
        need > 0,
        waste_at(base, f[i], align) >= 0,
        fits(base, f[i], need, align),
    ensures
        lists_wf(
            split_free(base, f, i, need, align),
            insert_sorted(a, carved(base, f, i, need, align).0, need),
            size,
        ),
        sum_sizes(insert_sorted(a, carved(base, f, i, need, align).0, need)) == sum_sizes(a) + need,
{
    let b = f[i];
    let w = waste_at(base, b, align);
    let rem = b.1 - need - w;
    let x = carved(base, f, i, need, align);
    let wb = (b.0, w as usize);
    let tail = ((b.0 + w + need) as usize, rem as usize);
    assert(block_end(b) <= size);
    assert(size > 0);
    assert(b.1 > 0);
    assert(f.contains(b));
    // the allocated side
    assert forall|y: (usize, usize)| #[trigger] a.contains(y) implies disjoint(y, x) by {
        assert(disjoint(b, y));
        let j = choose|j: int| 0 <= j < a.len() && a[j] == y;
        assert(a[j].1 > 0);
    }
    lemma_insert_sorted_props(a, size, x);
    let a2 = insert_sorted(a, x.0, x.1);
    // the free side
    let f2 = split_free(base, f, i, need, align);
    lemma_sum_edits(f, i, wb);
    lemma_sum_edits(f, i, tail);
    lemma_ordered_edits(f, size, i, wb);
    lemma_ordered_edits(f, size, i, tail);
    if w > 0 {
        lemma_nonempty_edits(f, i, wb);
    }
    if rem > 0 {
        lemma_nonempty_edits(f, i, tail);
    }
    lemma_nonempty_edits(f, i, b);
    lemma_others_disjoint(f, size, i);
    let u = f.update(i, wb);
    if w > 0 && rem > 0 {
        lemma_sum_edits(u, i + 1, tail);
        lemma_ordered_edits(u, size, i + 1, tail);
        lemma_nonempty_edits(u, i + 1, tail);
        if i + 1 < f.len() {
            assert(f[i].0 < f[i + 1].0 && block_end(f[i]) <= f[i + 1].0);
        }
    }
    assert(blocks_ordered(f2, size));
    assert(all_nonempty(f2));
    assert(sum_sizes(f2) == sum_sizes(f) - need);
    // no free block overlaps an allocated one
    assert forall|y: (usize, usize), z: (usize, usize)|
        #[trigger] f2.contains(y) && #[trigger] a2.contains(z) implies disjoint(y, z) by {
        lemma_contains_edits(f, i, wb, y);
        lemma_contains_edits(f, i, tail, y);
        lemma_contains_edits(u, i + 1, tail, y);
        lemma_contains_edits(u, i, wb, y);
        if z != x {
            assert(a.contains(z));
            assert(disjoint(b, z));
        }
        if f.remove(i).contains(y) {
            assert(disjoint(y, b));
            assert(f.contains(y));
        }
    }
}

/// The entry found by `key_index_from` has the key, and none before it from `k` on does.
pub proof fn lemma_key_index(s: Seq<(usize, usize)>, key: usize, k: int)
    requires
        0 <= k <= s.len(),
    ensures
        key_index_from(s, key, k) == -1 || k <= key_index_from(s, key, k) < s.len(),
        key_index_from(s, key, k) >= 0 ==> s[key_index_from(s, key, k)].0 == key,
        key_index_from(s, key, k) == -1 ==> forall|j: int| k <= j < s.len() ==> (#[trigger] s[j]).0 != key,
    decreases s.len() - k,
{
    if k < s.len() && s[k].0 != key {
        lemma_key_index(s, key, k + 1);
    }
}

/// Giving an allocated block back to the free list, then joining touching free blocks,
/// keeps the bookkeeping whole and leaves no two free blocks touching.
#[verifier::spinoff_prover]
#[verifier::rlimit(40)]
pub proof fn lemma_release(f: Seq<(usize, usize)>, a: Seq<(usize, usize)>, size: int, j: int)
    requires
        lists_wf(f, a, size),
        size <= usize::MAX,
        0 <= j < a.len(),
    ensures
        lists_wf(coalesce(insert_sorted(f, a[j].0, a[j].1)), a.remove(j), size),
        none_touching(coalesce(insert_sorted(f, a[j].0, a[j].1))),
        sum_sizes(a.remove(j)) == sum_sizes(a) - a[j].1,
{
    let x = a[j];
    assert(x.1 > 0);
    assert(block_end(x) <= size);
    assert(a.contains(x));
    assert forall|y: (usize, usize)| #[trigger] f.contains(y) implies disjoint(y, x) by {}
    lemma_insert_sorted_props(f, size, x);
    let f2 = insert_sorted(f, x.0, x.1);
    let a2 = a.remove(j);
    lemma_sum_edits(a, j, x);
    lemma_ordered_edits(a, size, j, x);
    lemma_nonempty_edits(a, j, x);
    lemma_others_disjoint(a, size, j);
    lemma_coalesce(f2, size);
    let c = coalesce(f2);
    assert forall|y: (usize, usize), z: (usize, usize)|
        #[trigger] c.contains(y) && #[trigger] a2.contains(z) implies disjoint(y, z) by {
        assert(disjoint(z, x) && a.contains(z));
        assert(z.1 > 0) by {
            let k = choose|k: int| 0 <= k < a.len() && a[k] == z;
            assert(a[k].1 > 0);
        }
        assert forall|w: (usize, usize)| #[trigger] f2.contains(w) implies disjoint(w, z) by {
            if w != x {
                assert(f.contains(w));
            }
        }
        lemma_coalesce_disjoint(f2, size, z);
    }
}

/// What giving back the block at offset `off` does: where no allocated block starts there,
/// nothing changes and the request is refused; otherwise that block leaves the allocated list,
/// its bytes join the free list, touching free blocks are joined, and the count drops.
pub open spec fn released(
    f: Seq<(usize, usize)>,
    a: Seq<(usize, usize)>,
    total: usize,
    off: usize,
    r: Result<(), UsbDriverError>,
    f2: Seq<(usize, usize)>,
    a2: Seq<(usize, usize)>,
    total2: usize,
) -> bool {
    let j = key_index_from(a, off, 0);
    if j < 0 {
        &&& r == Err::<(), UsbDriverError>(UsbDriverError::InvalidParameter)
        &&& f2 == f
        &&& a2 == a
        &&& total2 == total
    } else {
        &&& r == Ok::<(), UsbDriverError>(())
        &&& a2 == a.remove(j)
        &&& f2 == coalesce(insert_sorted(f, off, a[j].1))
        &&& total2 == total - a[j].1
        &&& none_touching(f2)
    }
}

/// Looking a key up past a first entry that does not have it is looking it up in the rest.
pub proof fn lemma_key_index_shift(h: (usize, usize), u: Seq<(usize, usize)>, key: usize, k: int)
    requires
        0 <= k <= u.len(),
    ensures
        key_index_from(seq![h] + u, key, k + 1) == (if key_index_from(u, key, k) < 0 {
            -1
        } else {
            key_index_from(u, key, k) + 1
        }),
    decreases u.len() - k,
{
    let s = seq![h] + u;
    if k < u.len() {
        assert(s[k + 1] == u[k]);
        if u[k].0 != key {
            lemma_key_index_shift(h, u, key, k + 1);
        }
    }
}

/// Giving back the block an allocation added finds exactly that block, and taking it out
/// leaves the allocated blocks as they were before the allocation.
#[verifier::spinoff_prover]
#[verifier::rlimit(40)]
pub proof fn lemma_release_undoes_insert(a: Seq<(usize, usize)>, limit: int, x: (usize, usize))
    requires
        blocks_ordered(a, limit),
        all_nonempty(a),
        x.1 > 0,
        forall|y: (usize, usize)| #[trigger] a.contains(y) ==> disjoint(y, x),
    ensures
        key_index_from(insert_sorted(a, x.0, x.1), x.0, 0) >= 0,
        insert_sorted(a, x.0, x.1)[key_index_from(insert_sorted(a, x.0, x.1), x.0, 0)] == x,
        insert_sorted(a, x.0, x.1).remove(key_index_from(insert_sorted(a, x.0, x.1), x.0, 0)) == a,
    decreases a.len(),
{
    let r = insert_sorted(a, x.0, x.1);
    if a.len() == 0 {
        assert(r[0] == x);
        assert(r.remove(0) =~= a);
    } else {
        assert(a.contains(a[0]));
        assert(a[0].1 > 0);
        if x.0 < a[0].0 {
            assert(r[0] == x);
            assert(r.remove(0) =~= a);
        } else {
            let t = a.drop_first();
            assert(blocks_ordered(t, limit)) by {
                assert forall|i: int, j: int| #![trigger t[i], t[j]] 0 <= i < j < t.len() implies t[i].0
                    < t[j].0 && block_end(t[i]) <= t[j].0 by {
                    assert(a[i + 1].0 < a[j + 1].0 && block_end(a[i + 1]) <= a[j + 1].0);
                }
                assert forall|i: int| 0 <= i < t.len() implies block_end(#[trigger] t[i]) <= limit by {
                    assert(block_end(a[i + 1]) <= limit);
                }
            }
            assert(all_nonempty(t)) by {
                assert forall|i: int| 0 <= i < t.len() implies (#[trigger] t[i]).1 > 0 by {
                    assert(a[i + 1].1 > 0);
                }
            }
            assert forall|y: (usize, usize)| #[trigger] t.contains(y) implies disjoint(y, x) by {
                let j = choose|j: int| 0 <= j < t.len() && t[j] == y;
                assert(a[j + 1] == y);
                assert(a.contains(y));
            }
            lemma_release_undoes_insert(t, limit, x);
            let u = insert_sorted(t, x.0, x.1);
            assert(r == seq![a[0]] + u);
            lemma_key_index_shift(a[0], u, x.0, 0);
            let j = key_index_from(u, x.0, 0);
            lemma_key_index(u, x.0, 0);
            assert(key_index_from(r, x.0, 0) == key_index_from(r, x.0, 1));
            assert(r.remove(j + 1) =~= seq![a[0]] + u.remove(j));
            assert(seq![a[0]] + t =~= a);
        }
    }
}

/// What an allocation of `size` bytes at alignment `align` does: nothing but refuse a size of
/// zero or a request that no free block can hold; otherwise cut it from the first free block
/// that can hold it and record the allocated block, whose aligned address is returned.
pub open spec fn allocated(
    before: UsbMemoryPool,
    size: usize,
    align: usize,
    r: Result<usize, UsbDriverError>,
    after: UsbMemoryPool,
) -> bool {
    &&& after.base_addr() == before.base_addr()
    &&& after.pool_size() == before.pool_size()
    &&& size == 0 ==> r == Err::<usize, UsbDriverError>(UsbDriverError::InvalidParameter)
    &&& ({
        let need = align_up_spec(size, align);
        let f = before.free_list();
        let base = before.base_addr();
        let i = first_fit_from(base, f, need, align, 0);
        &&& size > 0 && i == f.len() ==> r == Err::<usize, UsbDriverError>(
            UsbDriverError::MemoryError,
        )
        &&& (size == 0 || i == f.len()) ==> after.free_list() == f
            && after.allocated_list() == before.allocated_list()
            && after.allocated_total() == before.allocated_total()
        &&& size > 0 && i < f.len() ==> {
            let x = carved(base, f, i, need, align);
            &&& after.free_list() == split_free(base, f, i, need, align)
            &&& after.allocated_list() == insert_sorted(
                before.allocated_list(),
                x.0,
                need,
            )
            &&& after.allocated_total() == before.allocated_total() + need
            &&& r == (if base + x.0 == 0 {
                Err::<usize, UsbDriverError>(UsbDriverError::MemoryError)
            } else {
                Ok::<usize, UsbDriverError>((base + x.0) as usize)
            })
        }
    })
    &&& r matches Ok(p) ==> is_aligned_spec(p, align) && before.base_addr() <= p && p + size
        <= before.base_addr() + before.pool_size()
}

/// What freeing the block at address `addr` does: see `released`; the request succeeds
/// exactly when an allocated block starts there.
pub open spec fn deallocated(
    before: UsbMemoryPool,
    addr: usize,
    r: Result<(), UsbDriverError>,
    after: UsbMemoryPool,
) -> bool {
    let off = (addr - before.base_addr()) as usize;
    &&& after.base_addr() == before.base_addr()
    &&& after.pool_size() == before.pool_size()
    &&& r is Ok <==> exists|k: int|
        0 <= k < before.allocated_list().len() && (#[trigger] before.allocated_list()[k]).0 == off
    &&& released(
        before.free_list(),
        before.allocated_list(),
        before.allocated_total(),
        off,
        r,
        after.free_list(),
        after.allocated_list(),
        after.allocated_total(),
    )
}

/// USB Memory Pool for DMA-coherent allocations
///
/// Both block lists are kept sorted by offset, as an ordered map from offset to size.
pub struct UsbMemoryPool {
    /// Base address of the pool
    base: usize,
    /// Size of the pool
    size: usize,
    /// Free blocks (offset, size)
    free_blocks: Vec<(usize, usize)>,
    /// Allocated blocks (offset, size)
    allocated_blocks: Vec<(usize, usize)>,
    /// Total allocated bytes
    allocated_bytes: usize,
}

impl UsbMemoryPool {
    /// Address of the pool's first byte.
    pub closed spec fn base_addr(&self) -> usize {
        self.base
    }

    /// Number of bytes the pool manages.
    pub closed spec fn pool_size(&self) -> usize {
        self.size
    }

    /// Free blocks, by increasing offset.
    pub closed spec fn free_list(&self) -> Seq<(usize, usize)> {
        self.free_blocks@
    }

    /// Allocated blocks, by increasing offset.
    pub closed spec fn allocated_list(&self) -> Seq<(usize, usize)> {
        self.allocated_blocks@
    }

    /// The running count of allocated bytes.
    pub closed spec fn allocated_total(&self) -> usize {
        self.allocated_bytes
    }

    /// Both lists are ordered inside the pool, no free block overlaps an allocated one,
    /// together they account for every byte, and the running count matches.
    pub open spec fn wf(&self) -> bool {
        &&& lists_wf(self.free_list(), self.allocated_list(), self.pool_size() as int)
        &&& self.allocated_total() == sum_sizes(self.allocated_list())
    }

    /// Create a new memory pool
    pub fn new(base: usize, size: usize) -> (pool: Self)
        ensures
            pool.wf(),
            pool.base_addr() == base,
            pool.pool_size() == size,
            pool.free_list() == seq![(0usize, size)],
            pool.allocated_list() == Seq::<(usize, usize)>::empty(),
            pool.allocated_total() == 0,
    {
        let mut free_blocks: Vec<(usize, usize)> = Vec::new();
        free_blocks.push((0, size));
        let pool = Self {
            base,
            size,
            free_blocks,
            allocated_blocks: Vec::new(),
            allocated_bytes: 0,
        };
        proof {
            lemma_sum_single((0usize, size));
            assert(sum_sizes(Seq::<(usize, usize)>::empty()) == 0);
            assert(pool.free_blocks@ =~= seq![(0usize, size)]);
        }
        pool
    }

    /// Index of the first free block that can hold `need` bytes at an `align`ed address.
    fn first_fit(&self, need: usize, align: usize) -> (r: usize)
        requires
            self.wf(),
            is_pow2(align),
            self.base + self.size + align <= usize::MAX,
            need + align <= usize::MAX,
        ensures
            r == first_fit_from(self.base, self.free_blocks@, need, align, 0),
    {
        let mut i: usize = 0;
        while i < self.free_blocks.len()
            invariant
                i <= self.free_blocks.len(),
                blocks_ordered(self.free_blocks@, self.size as int),
                is_pow2(align),
                self.base + self.size + align <= usize::MAX,
                need + align <= usize::MAX,
                first_fit_from(self.base, self.free_blocks@, need, align, 0) == first_fit_from(
                    self.base,
                    self.free_blocks@,
                    need,
                    align,
                    i as int,
                ),
            decreases self.free_blocks.len() - i,
        {
            let blk = self.free_blocks[i];
            assert(block_end(self.free_blocks@[i as int]) <= self.size);
            let start = self.base + blk.0;
            let aligned = align_up(start, align);
            let waste = aligned - start;
            if blk.1 >= need + waste {
                return i;
            }
            i = i + 1;
        }
        i
    }

    /// Allocate memory with alignment
    ///
    /// The first free block, by offset, that can hold the size rounded up to the alignment at
    /// an aligned address is split: the bytes skipped to reach alignment and the bytes left
    /// over stay free. The result is the aligned address.
    pub fn allocate(&mut self, size: usize, align: usize) -> (r: Result<usize, UsbDriverError>)
        requires
            old(self).wf(),
            is_pow2(align),
            size + 2 * align <= usize::MAX,
            old(self).base_addr() + old(self).pool_size() + align <= usize::MAX,
        ensures
            final(self).wf(),
            allocated(*old(self), size, align, r, *final(self)),
            allocation_law(*old(self), size, align, r, *final(self)),
    {
        let r = self.carve_allocation(size, align);
        proof {
            lemma_allocation(*old(self), size, align, r, *self);
        }
        r
    }

    /// Cut an allocation from the first free block that can hold it (see `allocated`).
    fn carve_allocation(&mut self, size: usize, align: usize) -> (r: Result<usize, UsbDriverError>)
        requires
            old(self).wf(),
            is_pow2(align),
            size + 2 * align <= usize::MAX,
            old(self).base_addr() + old(self).pool_size() + align <= usize::MAX,
        ensures
            final(self).wf(),
            allocated(*old(self), size, align, r, *final(self)),
    {
        if size == 0 {
            return Err(UsbDriverError::InvalidParameter);
        }
        let aligned_size = align_up(size, align);
        proof {
            lemma_align_up(size, align);
        }
        let i = self.first_fit(aligned_size, align);
        if i >= self.free_blocks.len() {
            return Err(UsbDriverError::MemoryError);
        }
        let ghost f0 = self.free_blocks@;
        let ghost a0 = self.allocated_blocks@;
        proof {
            lemma_first_fit(self.base, f0, aligned_size, align, 0);
        }
        let (offset, block_size) = self.free_blocks[i];
        assert(block_end(f0[i as int]) <= self.size);
        let start = self.base + offset;
        let aligned_offset = align_up(start, align);
        let waste = aligned_offset - start;
        let alloc_offset = offset + waste;
        let remaining = block_size - aligned_size - waste;
        let tail_offset = alloc_offset + aligned_size;
        if waste > 0 {
            self.free_blocks.set(i, (offset, waste));
            if remaining > 0 {
                self.free_blocks.insert(i + 1, (tail_offset, remaining));
            }
        } else if remaining > 0 {
            self.free_blocks.set(i, (tail_offset, remaining));
        } else {
            self.free_blocks.remove(i);
        }
        proof {
            lemma_carve(self.base, f0, a0, self.size as int, i as int, aligned_size, align);
            lemma_sum_nonneg(split_free(self.base, f0, i as int, aligned_size, align));
        }
        insert_block(&mut self.allocated_blocks, alloc_offset, aligned_size);
        self.allocated_bytes = self.allocated_bytes + aligned_size;
        proof {
            assert(self.free_blocks@ =~= split_free(self.base, f0, i as int, aligned_size, align));
        }
        if aligned_offset == 0 {
            Err(UsbDriverError::MemoryError)
        } else {
            Ok(aligned_offset)
        }
    }

    /// Deallocate memory
    ///
    /// The allocated block that starts at `addr` goes back to the free list, and touching free
    /// blocks are joined.
    pub fn deallocate(&mut self, addr: usize) -> (r: Result<(), UsbDriverError>)
        requires
            old(self).wf(),
            addr >= old(self).base_addr(),
        ensures
            final(self).wf(),
            deallocated(*old(self), addr, r, *final(self)),
            r is Ok ==> ({
                let freed = old(self).allocated_list()[key_index_from(
                    old(self).allocated_list(),
                    (addr - old(self).base_addr()) as usize,
                    0,
                )];
                &&& forall|o: int| #[trigger] covers(final(self).free_list(), o) <==> covers(
                    old(self).free_list(),
                    o,
                ) || (freed.0 <= o < block_end(freed))
                &&& sum_sizes(final(self).free_list()) == sum_sizes(old(self).free_list()) + freed.1
                &&& forall|i: int|
                    0 <= i < final(self).free_list().len() - 1 ==> block_end(#[trigger] final(self).free_list()[i])
                        < final(self).free_list()[i + 1].0
            }),
    {
        let offset = addr - self.base;
        let ghost f0 = self.free_blocks@;
        let ghost a0 = self.allocated_blocks@;
        let mut j: usize = 0;
        while j < self.allocated_blocks.len() && self.allocated_blocks[j].0 != offset
            invariant
                j <= self.allocated_blocks.len(),
                self.allocated_blocks@ == a0,
                key_index_from(a0, offset, 0) == key_index_from(a0, offset, j as int),
            decreases self.allocated_blocks.len() - j,
        {
            j = j + 1;
        }
        proof {
            lemma_key_index(a0, offset, 0);
        }
        if j == self.allocated_blocks.len() {
            return Err(UsbDriverError::InvalidParameter);
        }
        proof {
            assert(key_index_from(a0, offset, j as int) == j as int);
            assert(a0[j as int].0 == offset);
        }
        let (_, size) = self.allocated_blocks.remove(j);
        proof {
            lemma_release(f0, a0, self.size as int, j as int);
            lemma_sum_nonneg(a0.remove(j as int));
            assert(a0.contains(a0[j as int]));
        }
        self.allocated_bytes = self.allocated_bytes - size;
        insert_block(&mut self.free_blocks, offset, size);
        proof {
            lemma_insert_sorted_props(f0, self.size as int, a0[j as int]);
        }
        let ghost merged = self.free_blocks@;
        self.coalesce_free_blocks();
        proof {
            assert(old(self).allocated_list()[j as int].0 == offset);
            let x = a0[j as int];
            lemma_coalesce_law(merged, self.size as int);
            assert forall|o: int| #[trigger] covers(merged, o) <==> covers(f0, o) || (x.0 <= o < block_end(x)) by {
                lemma_covers_insert(f0, self.size as int, x, o);
            }
        }
        Ok(())
    }

    /// Coalesce adjacent free blocks
    fn coalesce_free_blocks(&mut self)
        requires
            blocks_ordered(old(self).free_blocks@, old(self).size as int),
            all_nonempty(old(self).free_blocks@),
        ensures
            final(self).free_blocks@ == coalesce(old(self).free_blocks@),
            final(self).base == old(self).base,
            final(self).size == old(self).size,
            final(self).allocated_blocks == old(self).allocated_blocks,
            final(self).allocated_bytes == old(self).allocated_bytes,
    {
        let ghost s = self.free_blocks@;
        let mut coalesced: Vec<(usize, usize)> = Vec::new();
        let mut i: usize = 0;
        while i < self.free_blocks.len()
            invariant
                i <= self.free_blocks.len(),
                self.free_blocks@ == s,
                blocks_ordered(s, self.size as int),
                all_nonempty(s),
                coalesced@ == coalesce(s.take(i as int)),
            decreases self.free_blocks.len() - i,
        {
            let b = self.free_blocks[i];
            proof {
                lemma_ordered_take(s, self.size as int, i as int);
                lemma_coalesce(s.take(i as int), self.size as int);
                assert(s.take(i as int + 1).drop_last() =~= s.take(i as int));
                assert(s.take(i as int + 1).last() == b);
                assert(block_end(b) <= self.size);
                if i > 0 {
                    assert(s.take(i as int).last() == s[i as int - 1]);
                    assert(s[i as int - 1].0 < s[i as int].0 && block_end(s[i as int - 1]) <= s[i as int].0);
                }
            }
            let n = coalesced.len();
            if n > 0 && coalesced[n - 1].0 + coalesced[n - 1].1 == b.0 {
                let last = coalesced[n - 1];
                coalesced.set(n - 1, (last.0, last.1 + b.1));
                proof {
                    assert(coalesced@ =~= coalesce(s.take(i as int)).drop_last().push((last.0, (last.1 + b.1) as usize)));
                }
            } else {
                coalesced.push(b);
            }
            i = i + 1;
        }
        proof {
            assert(s.take(s.len() as int) =~= s);
        }
        self.free_blocks = coalesced;
    }

    /// Get pool statistics
    pub fn stats(&self) -> (r: PoolStats)
        requires
            self.wf(),
        ensures
            r.total_size == self.pool_size(),
            r.allocated_bytes == self.allocated_total(),
            r.free_bytes == self.pool_size() - self.allocated_total(),
            r.free_bytes == sum_sizes(self.free_list()),
            r.free_blocks == self.free_list().len(),
            r.allocated_blocks == self.allocated_list().len(),
    {
        proof {
            lemma_sum_nonneg(self.free_blocks@);
        }
        PoolStats {
            total_size: self.size,
            allocated_bytes: self.allocated_bytes,
            free_bytes: self.size - self.allocated_bytes,
            free_blocks: self.free_blocks.len(),
            allocated_blocks: self.allocated_blocks.len(),
        }
    }
}

/// Memory pool statistics
#[derive(Debug, Clone, Copy)]
pub struct PoolStats {
    pub total_size: usize,
    pub allocated_bytes: usize,
    pub free_bytes: usize,
    pub free_blocks: usize,
    pub allocated_blocks: usize,
}


/// Set the size of the entry for offset `key`, keeping the list ordered by offset.
fn insert_block(v: &mut Vec<(usize, usize)>, key: usize, size: usize)
    requires
        keys_sorted(old(v)@),
    ensures
        final(v)@ == insert_sorted(old(v)@, key, size),
{
    let mut p: usize = 0;
    while p < v.len() && v[p].0 < key
        invariant
            p <= v.len(),
            forall|j: int| 0 <= j < p ==> (#[trigger] v@[j]).0 < key,
        decreases v.len() - p,
    {
        p = p + 1;
    }
    proof {
        lemma_insert_sorted_shape(v@, key, size, p as int);
    }
    if p < v.len() && v[p].0 == key {
        v.set(p, (key, size));
    } else {
        v.insert(p, (key, size));
    }
}


/// Freeing the address that a successful allocation returned finds the block that the
/// allocation added, and taking it out leaves the allocated blocks exactly as they were before.
pub proof fn lemma_deallocate_undoes_allocate(
    before: UsbMemoryPool,
    after_alloc: Seq<(usize, usize)>,
    size: usize,
    align: usize,
)
    requires
        before.wf(),
        is_pow2(align),
        size > 0,
        size + 2 * align <= usize::MAX,
        before.base_addr() + before.pool_size() + align <= usize::MAX,
        first_fit_from(before.base_addr(), before.free_list(), align_up_spec(size, align), align, 0)
            < before.free_list().len(),
        after_alloc == insert_sorted(
            before.allocated_list(),
            carved(
                before.base_addr(),
                before.free_list(),
                first_fit_from(before.base_addr(), before.free_list(), align_up_spec(size, align), align, 0),
                align_up_spec(size, align),
                align,
            ).0,
            align_up_spec(size, align),
        ),
    ensures
        ({
            let need = align_up_spec(size, align);
            let i = first_fit_from(before.base_addr(), before.free_list(), need, align, 0);
            let off = carved(before.base_addr(), before.free_list(), i, need, align).0;
            let j = key_index_from(after_alloc, off, 0);
            &&& j >= 0
            &&& after_alloc[j] == (off, need)
            &&& after_alloc.remove(j) == before.allocated_list()
        }),
{
    let f = before.free_blocks@;
    let a = before.allocated_blocks@;
    let base = before.base;
    let need = align_up_spec(size, align);
    lemma_align_up(size, align);
    let i = first_fit_from(base, f, need, align, 0);
    lemma_first_fit(base, f, need, align, 0);
    assert(block_end(f[i]) <= before.size);
    lemma_align_up((base + f[i].0) as usize, align);
    let x = carved(base, f, i, need, align);
    assert(f.contains(f[i]));
    assert forall|y: (usize, usize)| #[trigger] a.contains(y) implies disjoint(y, x) by {
        assert(disjoint(f[i], y));
        let k = choose|k: int| 0 <= k < a.len() && a[k] == y;
        assert(a[k].1 > 0);
    }
    lemma_release_undoes_insert(a, before.size as int, x);
}

/// A well-formed pool's bookkeeping, in the open: both lists ordered inside the pool, no two
/// allocated blocks and no free and allocated block sharing a byte, every byte in exactly one
/// list, and the running count equal to the allocated sizes.
pub proof fn lemma_pool_layout(pool: UsbMemoryPool)
    requires
        pool.wf(),
    ensures
        lists_wf(pool.free_list(), pool.allocated_list(), pool.pool_size() as int),
        pool.allocated_total() == sum_sizes(pool.allocated_list()),
        forall|i: int, j: int|
            #![trigger pool.allocated_list()[i], pool.allocated_list()[j]]
            0 <= i < j < pool.allocated_list().len() ==> disjoint(pool.allocated_list()[i], pool.allocated_list()[j]),
{
}

/// What an allocation promises a caller: a successful one returns a multiple of the
/// alignment whose block (the size rounded up to the alignment) lies inside the pool and shares
/// no byte with any block allocated before; that block is recorded and the allocated count
/// grows by its size. A size of zero is refused as an invalid parameter and leaves the pool as
/// it was. With the pool past address zero every refusal leaves the pool as it was, and a
/// refusal as out of memory means no free block could hold the rounded-up size at an aligned
/// address.
pub open spec fn allocation_law(
    before: UsbMemoryPool,
    size: usize,
    align: usize,
    r: Result<usize, UsbDriverError>,
    after: UsbMemoryPool,
) -> bool {
    let need = align_up_spec(size, align);
    let base = before.base_addr();
    &&& r matches Ok(p) ==> {
        &&& p % align == 0
        &&& base <= p
        &&& p + need <= base + before.pool_size()
        &&& forall|k: int|
            0 <= k < before.allocated_list().len() ==> disjoint(
                ((p - base) as usize, need),
                #[trigger] before.allocated_list()[k],
            )
        &&& after.allocated_list().contains(((p - base) as usize, need))
        &&& after.allocated_total() == before.allocated_total() + need
    }
    &&& size == 0 ==> r == Err::<usize, UsbDriverError>(UsbDriverError::InvalidParameter)
    &&& (size == 0 || base > 0) && r is Err ==> after.free_list() == before.free_list()
        && after.allocated_list() == before.allocated_list() && after.allocated_total()
        == before.allocated_total()
    &&& base > 0 && size > 0 && r == Err::<usize, UsbDriverError>(UsbDriverError::MemoryError) ==> forall|k: int|
        0 <= k < before.free_list().len() ==> !fits(base, #[trigger] before.free_list()[k], need, align)
}

/// Every allocation from a well-formed pool keeps `allocation_law`.
pub proof fn lemma_allocation(
    before: UsbMemoryPool,
    size: usize,
    align: usize,
    r: Result<usize, UsbDriverError>,
    after: UsbMemoryPool,
)
    requires
        before.wf(),
        is_pow2(align),
        size + 2 * align <= usize::MAX,
        before.base_addr() + before.pool_size() + align <= usize::MAX,
        allocated(before, size, align, r, after),
    ensures
        allocation_law(before, size, align, r, after),
{
    let f = before.free_blocks@;
    let a = before.allocated_blocks@;
    let base = before.base;
    if size > 0 {
        let need = align_up_spec(size, align);
        lemma_align_up(size, align);
        let i = first_fit_from(base, f, need, align, 0);
        lemma_first_fit(base, f, need, align, 0);
        if i < f.len() {
            assert(block_end(f[i]) <= before.size);
            lemma_align_up((base + f[i].0) as usize, align);
            let x = carved(base, f, i, need, align);
            assert(f.contains(f[i]));
            assert forall|y: (usize, usize)| #[trigger] a.contains(y) implies disjoint(y, x) by {
                assert(disjoint(f[i], y));
                let k = choose|k: int| 0 <= k < a.len() && a[k] == y;
                assert(a[k].1 > 0);
            }
            assert forall|k: int| 0 <= k < a.len() implies disjoint(x, #[trigger] a[k]) by {
                assert(a.contains(a[k]));
            }
            lemma_insert_sorted_props(a, before.size as int, x);
            let p = (base + x.0) as usize;
            lemma_aligned_is_multiple(p, align);
            assert((p - base) as usize == x.0);
        }
    }
}

/// Base address of the simulated DMA-coherent region.
pub const DMA_POOL_BASE: usize = 0x8000_0000;

/// Size of the simulated DMA-coherent region (1 MiB).
pub const DMA_POOL_SIZE: usize = 0x10_0000;

/// USB Memory Allocator
///
/// DMA-coherent memory comes from a pool; heap allocations made by the caller are recorded
/// (address, size) so that they can be accounted for and released.
pub struct UsbMemoryAllocator {
    /// DMA-coherent memory pool
    dma_pool: UsbMemoryPool,
    /// Recorded heap allocations (address, size)
    allocations: Vec<(usize, usize)>,
}

impl UsbMemoryAllocator {
    /// The DMA pool.
    pub closed spec fn pool(&self) -> UsbMemoryPool {
        self.dma_pool
    }

    /// The recorded heap allocations.
    pub closed spec fn heap_list(&self) -> Seq<(usize, usize)> {
        self.allocations@
    }

    /// The pool is whole and the heap records are ordered by address.
    pub closed spec fn wf(&self) -> bool {
        self.dma_pool.wf() && keys_sorted(self.allocations@)
    }

    /// Create a new USB memory allocator
    pub fn new() -> (r: Result<Self, UsbDriverError>)
        ensures
            r matches Ok(a) && a.wf() && a.pool().base_addr() == DMA_POOL_BASE && a.pool().pool_size()
                == DMA_POOL_SIZE && a.pool().free_list() == seq![(0usize, DMA_POOL_SIZE)]
                && a.pool().allocated_list().len() == 0 && a.pool().allocated_total() == 0
                && a.heap_list().len() == 0,
    {
        let dma_pool = UsbMemoryPool::new(DMA_POOL_BASE, DMA_POOL_SIZE);
        Ok(Self { dma_pool, allocations: Vec::new() })
    }

    /// Allocate DMA-coherent memory
    pub fn allocate_dma(&mut self, size: usize, align: usize) -> (r: Result<usize, UsbDriverError>)
        requires
            old(self).wf(),
            is_pow2(align),
            size + 2 * align <= usize::MAX,
            old(self).pool().base_addr() + old(self).pool().pool_size() + align <= usize::MAX,
        ensures
            final(self).wf(),
            allocated(old(self).pool(), size, align, r, final(self).pool()),
            final(self).heap_list() == old(self).heap_list(),
    {
        self.dma_pool.allocate(size, align)
    }

    /// Deallocate DMA-coherent memory
    pub fn deallocate_dma(&mut self, addr: usize) -> (r: Result<(), UsbDriverError>)
        requires
            old(self).wf(),
            addr >= old(self).pool().base_addr(),
        ensures
            final(self).wf(),
            deallocated(old(self).pool(), addr, r, final(self).pool()),
            final(self).heap_list() == old(self).heap_list(),
    {
        self.dma_pool.deallocate(addr)
    }

    /// Record a heap allocation of `size` bytes at `addr`.
    pub fn track_heap_allocation(&mut self, addr: usize, size: usize)
        requires
            old(self).wf(),
        ensures
            final(self).wf(),
            final(self).pool() == old(self).pool(),
            final(self).heap_list() == insert_sorted(old(self).heap_list(), addr, size),
    {
        let ghost before = self.allocations@;
        insert_block(&mut self.allocations, addr, size);
        proof {
            lemma_insert_sorted_keys(before, addr, size);
        }
    }

    /// Forget the heap allocation at `addr`, giving back its size; refused where none is recorded.
    pub fn untrack_heap_allocation(&mut self, addr: usize) -> (r: Result<usize, UsbDriverError>)
        requires
            old(self).wf(),
        ensures
            final(self).wf(),
            final(self).pool() == old(self).pool(),
            ({
                let j = key_index_from(old(self).heap_list(), addr, 0);
                &&& j < 0 ==> r == Err::<usize, UsbDriverError>(UsbDriverError::InvalidParameter)
                    && final(self).heap_list() == old(self).heap_list()
                &&& j >= 0 ==> r == Ok::<usize, UsbDriverError>(old(self).heap_list()[j].1)
                    && final(self).heap_list() == old(self).heap_list().remove(j)
            }),
    {
        let ghost h = self.allocations@;
        let mut j: usize = 0;
        while j < self.allocations.len() && self.allocations[j].0 != addr
            invariant
                j <= self.allocations.len(),
                self.allocations@ == h,
                key_index_from(h, addr, 0) == key_index_from(h, addr, j as int),
            decreases self.allocations.len() - j,
        {
            j = j + 1;
        }
        proof {
            lemma_key_index(h, addr, 0);
        }
        if j == self.allocations.len() {
            return Err(UsbDriverError::InvalidParameter);
        }
        proof {
            assert(key_index_from(h, addr, j as int) == j as int);
        }
        let (_, size) = self.allocations.remove(j);
        proof {
            assert forall|a: int, b: int|
                #![trigger self.allocations@[a], self.allocations@[b]]
                0 <= a < b < self.allocations@.len() implies self.allocations@[a].0
                < self.allocations@[b].0 by {
                if b < j {
                    assert(h[a].0 < h[b].0);
                } else if a < j {
                    assert(h[a].0 < h[b + 1].0);
                } else {
                    assert(h[a + 1].0 < h[b + 1].0);
                }
            }
        }
        Ok(size)
    }

    /// Get allocator statistics
    pub fn stats(&self) -> (r: AllocatorStats)
        requires
            self.wf(),
        ensures
            r.dma_pool.total_size == self.pool().pool_size(),
            r.dma_pool.allocated_bytes == self.pool().allocated_total(),
            r.dma_pool.free_bytes == self.pool().pool_size() - self.pool().allocated_total(),
            r.dma_pool.free_blocks == self.pool().free_list().len(),
            r.dma_pool.allocated_blocks == self.pool().allocated_list().len(),
            r.heap_allocations == self.heap_list().len(),
    {
        let pool_stats = self.dma_pool.stats();
        AllocatorStats { dma_pool: pool_stats, heap_allocations: self.allocations.len() }
    }
}

/// Allocator statistics
#[derive(Debug, Clone, Copy)]
pub struct AllocatorStats {
    pub dma_pool: PoolStats,
    pub heap_allocations: usize,
}

} // verus!
