//! Stable ordering of entries by a key, as `slice::sort_by_key` orders them:
//! entries with equal keys keep their relative order.
use vstd::prelude::*;

verus! {

/// `x` inserted into `s` after the last entry whose key is `le` to its key
/// (scanning from the end), which keeps a stable order.
pub open spec fn ins<K>(s: Seq<(K, int)>, x: (K, int), le: spec_fn(K, K) -> bool) -> Seq<(K, int)>
    decreases s.len(),
{
    if s.len() == 0 {
        seq![x]
    } else if le(s.last().0, x.0) {
        s.push(x)
    } else {
        ins(s.drop_last(), x, le).push(s.last())
    }
}

/// Stable insertion sort of keyed entries.
pub open spec fn isort<K>(s: Seq<(K, int)>, le: spec_fn(K, K) -> bool) -> Seq<(K, int)>
    decreases s.len(),
{
    if s.len() == 0 {
        seq![]
    } else {
        ins(isort(s.drop_last(), le), s.last(), le)
    }
}

/// Each key paired with its index.
pub open spec fn keyed<K>(keys: Seq<K>) -> Seq<(K, int)> {
    Seq::new(keys.len(), |i: int| (keys[i], i))
}

/// The indices of `keys` in stable sorted order.
pub open spec fn sorted_order<K>(keys: Seq<K>, le: spec_fn(K, K) -> bool) -> Seq<int> {
    isort(keyed(keys), le).map_values(|p: (K, int)| p.1)
}

/// Numeric order.
pub open spec fn nat_le() -> spec_fn(nat, nat) -> bool {
    |a: nat, b: nat| a <= b
}

/// Lexicographic order of texts by code point (the order of `str`).
pub open spec fn text_le(a: Seq<char>, b: Seq<char>) -> bool
    decreases a.len(),
{
    if a.len() == 0 {
        true
    } else if b.len() == 0 {
        false
    } else if a[0] != b[0] {
        (a[0] as u32) < (b[0] as u32)
    } else {
        text_le(a.drop_first(), b.drop_first())
    }
}

/// Text order as a spec closure.
pub open spec fn text_order() -> spec_fn(Seq<char>, Seq<char>) -> bool {
    |a: Seq<char>, b: Seq<char>| text_le(a, b)
}

/// Inserting by scanning from the end: `x` lands at the first position
/// after which every key is not `le` to its key.
pub proof fn lemma_ins_at<K>(s: Seq<(K, int)>, x: (K, int), le: spec_fn(K, K) -> bool, p: int)
    requires
        0 <= p <= s.len(),
        forall|j: int| p <= j < s.len() ==> !le(#[trigger] s[j].0, x.0),
        p == 0 || le(s[p - 1].0, x.0),
    ensures
        ins(s, x, le) == s.take(p) + seq![x] + s.skip(p),
    decreases s.len(),
{
    if s.len() == 0 {
        assert(s.take(p) + seq![x] + s.skip(p) =~= seq![x]);
    } else if le(s.last().0, x.0) {
        assert(p == s.len()) by {
            if p < s.len() {
                assert(!le(s[s.len() - 1].0, x.0));
            }
        }
        assert(s.take(p) + seq![x] + s.skip(p) =~= s.push(x));
    } else {
        assert(p < s.len());
        let d = s.drop_last();
        assert forall|j: int| p <= j < d.len() implies !le(#[trigger] d[j].0, x.0) by {
            assert(d[j] == s[j]);
        }
        if p > 0 {
            assert(d[p - 1] == s[p - 1]);
        }
        lemma_ins_at(d, x, le, p);
        assert(ins(s, x, le) == ins(d, x, le).push(s.last()));
        assert((d.take(p) + seq![x] + d.skip(p)).push(s.last()) =~= s.take(p) + seq![x] + s.skip(
            p,
        ));
    }
}

/// Inserting adds exactly one entry.
proof fn lemma_ins_len<K>(s: Seq<(K, int)>, x: (K, int), le: spec_fn(K, K) -> bool)
    ensures
        ins(s, x, le).len() == s.len() + 1,
    decreases s.len(),
{
    if s.len() > 0 && !le(s.last().0, x.0) {
        lemma_ins_len(s.drop_last(), x, le);
    }
}

/// Sorting keeps the length.
pub proof fn lemma_isort_len<K>(s: Seq<(K, int)>, le: spec_fn(K, K) -> bool)
    ensures
        isort(s, le).len() == s.len(),
    decreases s.len(),
{
    if s.len() > 0 {
        lemma_isort_len(s.drop_last(), le);
        lemma_ins_len(isort(s.drop_last(), le), s.last(), le);
    }
}

/// Every index of the sorted order comes from the input.
proof fn lemma_ins_indices<K>(s: Seq<(K, int)>, x: (K, int), le: spec_fn(K, K) -> bool, n: int)
    requires
        forall|j: int| 0 <= j < s.len() ==> 0 <= #[trigger] s[j].1 < n,
        0 <= x.1 < n,
    ensures
        forall|j: int| 0 <= j < ins(s, x, le).len() ==> 0 <= #[trigger] ins(s, x, le)[j].1 < n,
    decreases s.len(),
{
    if s.len() > 0 && !le(s.last().0, x.0) {
        let d = s.drop_last();
        assert forall|j: int| 0 <= j < d.len() implies 0 <= #[trigger] d[j].1 < n by {
            assert(d[j] == s[j]);
        }
        lemma_ins_indices(d, x, le, n);
        lemma_ins_len(d, x, le);
        let r = ins(d, x, le).push(s.last());
        assert forall|j: int| 0 <= j < r.len() implies 0 <= #[trigger] r[j].1 < n by {
            if j < r.len() - 1 {
                assert(r[j] == ins(d, x, le)[j]);
            }
        }
    } else if s.len() > 0 {
        assert forall|j: int| 0 <= j < s.push(x).len() implies 0 <= #[trigger] s.push(x)[j].1 < n by {
            if j < s.len() {
                assert(s.push(x)[j] == s[j]);
            }
        }
    }
}

/// The sorted order holds valid indices only.
pub proof fn lemma_sorted_order_indices<K>(keys: Seq<K>, le: spec_fn(K, K) -> bool)
    ensures
        sorted_order(keys, le).len() == keys.len(),
        forall|j: int|
            0 <= j < keys.len() ==> 0 <= #[trigger] sorted_order(keys, le)[j] < keys.len(),
{
    lemma_isort_prefix_indices(keyed(keys), le, keys.len() as int);
    lemma_isort_len(keyed(keys), le);
}

proof fn lemma_isort_prefix_indices<K>(s: Seq<(K, int)>, le: spec_fn(K, K) -> bool, n: int)
    requires
        forall|j: int| 0 <= j < s.len() ==> 0 <= #[trigger] s[j].1 < n,
    ensures
        forall|j: int| 0 <= j < isort(s, le).len() ==> 0 <= #[trigger] isort(s, le)[j].1 < n,
    decreases s.len(),
{
    if s.len() > 0 {
        let d = s.drop_last();
        assert forall|j: int| 0 <= j < d.len() implies 0 <= #[trigger] d[j].1 < n by {
            assert(d[j] == s[j]);
        }
        lemma_isort_prefix_indices(d, le, n);
        lemma_ins_indices(isort(d, le), s.last(), le, n);
    }
}

// ── Laws ─────────────────────────────────────────────────────────────────

/// `le` is total and transitive.
pub open spec fn total_preorder<K>(le: spec_fn(K, K) -> bool) -> bool {
    &&& forall|a: K, b: K| #[trigger] le(a, b) || le(b, a)
    &&& forall|a: K, b: K, c: K| #[trigger] le(a, b) && #[trigger] le(b, c) ==> le(a, c)
}

/// Keyed entries in `le` order.
pub open spec fn sorted_by<K>(s: Seq<(K, int)>, le: spec_fn(K, K) -> bool) -> bool {
    forall|i: int, j: int| 0 <= i < j < s.len() ==> le(#[trigger] s[i].0, #[trigger] s[j].0)
}

/// No index occurs twice.
pub open spec fn distinct_indices<K>(s: Seq<(K, int)>) -> bool {
    forall|i: int, j: int| 0 <= i < j < s.len() ==> #[trigger] s[i].1 != #[trigger] s[j].1
}

/// Every entry of `ins(s, x)` is `x` or an entry of `s`.
proof fn lemma_ins_from<K>(s: Seq<(K, int)>, x: (K, int), le: spec_fn(K, K) -> bool)
    ensures
        forall|j: int| 0 <= j < ins(s, x, le).len() ==> #[trigger] ins(s, x, le)[j] == x || s.contains(ins(s, x, le)[j]),
    decreases s.len(),
{
    lemma_ins_len(s, x, le);
    if s.len() > 0 && !le(s.last().0, x.0) {
        let d = s.drop_last();
        lemma_ins_from(d, x, le);
        lemma_ins_len(d, x, le);
        let r = ins(s, x, le);
        assert forall|j: int| 0 <= j < r.len() implies #[trigger] r[j] == x || s.contains(r[j]) by {
            if j < r.len() - 1 {
                assert(r[j] == ins(d, x, le)[j]);
                if ins(d, x, le)[j] != x {
                    let w = choose|k: int| 0 <= k < d.len() && d[k] == ins(d, x, le)[j];
                    assert(s[w] == d[w]);
                }
            } else {
                assert(s[s.len() - 1] == s.last());
            }
        }
    } else if s.len() > 0 {
        assert forall|j: int| 0 <= j < s.push(x).len() implies #[trigger] s.push(x)[j] == x || s.contains(s.push(x)[j]) by {
            if j < s.len() {
                assert(s.push(x)[j] == s[j]);
            }
        }
    }
}

/// Inserting into a sorted sequence keeps it sorted, and inserting an
/// entry whose index is new keeps the indices distinct.
proof fn lemma_ins_sorted<K>(s: Seq<(K, int)>, x: (K, int), le: spec_fn(K, K) -> bool)
    requires
        total_preorder(le),
        sorted_by(s, le),
    ensures
        sorted_by(ins(s, x, le), le),
        distinct_indices(s) && (forall|k: int| 0 <= k < s.len() ==> #[trigger] s[k].1 != x.1)
            ==> distinct_indices(ins(s, x, le)),
    decreases s.len(),
{
    lemma_ins_len(s, x, le);
    if s.len() == 0 {
    } else if le(s.last().0, x.0) {
        let r = s.push(x);
        assert forall|i: int, j: int| 0 <= i < j < r.len() implies le(#[trigger] r[i].0, #[trigger] r[j].0) by {
            if j == r.len() - 1 {
                if i < s.len() - 1 {
                    assert(le(s[i].0, s[s.len() - 1].0));
                }
                assert(le(r[i].0, s.last().0));
            } else {
                assert(r[i] == s[i] && r[j] == s[j]);
            }
        }
        if distinct_indices(s) && (forall|k: int| 0 <= k < s.len() ==> #[trigger] s[k].1 != x.1) {
            assert forall|i: int, j: int| 0 <= i < j < r.len() implies #[trigger] r[i].1 != #[trigger] r[j].1 by {
                if j == r.len() - 1 {
                    assert(r[i] == s[i]);
                } else {
                    assert(r[i] == s[i] && r[j] == s[j]);
                }
            }
        }
    } else {
        let d = s.drop_last();
        let y = s.last();
        assert(sorted_by(d, le)) by {
            assert forall|i: int, j: int| 0 <= i < j < d.len() implies le(#[trigger] d[i].0, #[trigger] d[j].0) by {
                assert(d[i] == s[i] && d[j] == s[j]);
            }
        }
        lemma_ins_sorted(d, x, le);
        lemma_ins_from(d, x, le);
        lemma_ins_len(d, x, le);
        let q = ins(d, x, le);
        let r = q.push(y);
        assert(le(x.0, y.0));
        assert forall|k: int| 0 <= k < q.len() implies le(#[trigger] q[k].0, y.0) by {
            if q[k] != x {
                let w = choose|m: int| 0 <= m < d.len() && d[m] == q[k];
                assert(s[w] == d[w]);
                assert(le(s[w].0, s[s.len() - 1].0));
            }
        }
        assert forall|i: int, j: int| 0 <= i < j < r.len() implies le(#[trigger] r[i].0, #[trigger] r[j].0) by {
            if j == r.len() - 1 {
                assert(r[i] == q[i]);
                assert(le(q[i].0, y.0));
            } else {
                assert(r[i] == q[i] && r[j] == q[j]);
            }
        }
        if distinct_indices(s) && (forall|k: int| 0 <= k < s.len() ==> #[trigger] s[k].1 != x.1) {
            assert(distinct_indices(d)) by {
                assert forall|i: int, j: int| 0 <= i < j < d.len() implies #[trigger] d[i].1 != #[trigger] d[j].1 by {
                    assert(d[i] == s[i] && d[j] == s[j]);
                }
            }
            assert forall|k: int| 0 <= k < d.len() implies #[trigger] d[k].1 != x.1 by {
                assert(d[k] == s[k]);
            }
            assert forall|k: int| 0 <= k < q.len() implies #[trigger] q[k].1 != y.1 by {
                if q[k] == x {
                    assert(s[s.len() - 1] == y);
                } else {
                    let w = choose|m: int| 0 <= m < d.len() && d[m] == q[k];
                    assert(s[w] == d[w]);
                    assert(s[w].1 != s[s.len() - 1].1);
                }
            }
            assert forall|i: int, j: int| 0 <= i < j < r.len() implies #[trigger] r[i].1 != #[trigger] r[j].1 by {
                if j == r.len() - 1 {
                    assert(r[i] == q[i]);
                } else {
                    assert(r[i] == q[i] && r[j] == q[j]);
                }
            }
        }
    }
}

/// Sorting gives a sorted sequence, with distinct indices when the input
/// has them.
proof fn lemma_isort_sorted<K>(s: Seq<(K, int)>, le: spec_fn(K, K) -> bool)
    requires
        total_preorder(le),
    ensures
        sorted_by(isort(s, le), le),
        forall|j: int| 0 <= j < isort(s, le).len() ==> s.contains(#[trigger] isort(s, le)[j]),
        distinct_indices(s) ==> distinct_indices(isort(s, le)),
    decreases s.len(),
{
    if s.len() > 0 {
        let d = s.drop_last();
        lemma_isort_sorted(d, le);
        let t = isort(d, le);
        lemma_ins_sorted(t, s.last(), le);
        lemma_ins_from(t, s.last(), le);
        let r = isort(s, le);
        assert forall|j: int| 0 <= j < r.len() implies s.contains(#[trigger] r[j]) by {
            if r[j] == s.last() {
                assert(s[s.len() - 1] == s.last());
            } else {
                let w = choose|m: int| 0 <= m < t.len() && t[m] == r[j];
                let v = choose|m: int| 0 <= m < d.len() && d[m] == t[w];
                assert(s[v] == d[v]);
            }
        }
        if distinct_indices(s) {
            assert(distinct_indices(d)) by {
                assert forall|i: int, j: int| 0 <= i < j < d.len() implies #[trigger] d[i].1 != #[trigger] d[j].1 by {
                    assert(d[i] == s[i] && d[j] == s[j]);
                }
            }
            assert forall|k: int| 0 <= k < t.len() implies #[trigger] t[k].1 != s.last().1 by {
                let v = choose|m: int| 0 <= m < d.len() && d[m] == t[k];
                assert(s[v] == d[v]);
                assert(s[v].1 != s[s.len() - 1].1);
            }
        }
    }
}

/// The stable order of `keys` lists every index exactly once, and the keys
/// it lists are in `le` order.
pub proof fn sorted_order_sorts<K>(keys: Seq<K>, le: spec_fn(K, K) -> bool)
    requires
        total_preorder(le),
    ensures
        sorted_order(keys, le).len() == keys.len(),
        forall|j: int| 0 <= j < keys.len() ==> 0 <= #[trigger] sorted_order(keys, le)[j] < keys.len(),
        forall|i: int, j: int|
            0 <= i < j < keys.len() ==> #[trigger] sorted_order(keys, le)[i] != #[trigger] sorted_order(keys, le)[j],
        forall|i: int, j: int|
            0 <= i < j < keys.len() ==> le(keys[#[trigger] sorted_order(keys, le)[i]], keys[#[trigger] sorted_order(keys, le)[j]]),
{
    lemma_sorted_order_indices(keys, le);
    let kd = keyed(keys);
    assert(distinct_indices(kd));
    lemma_isort_sorted(kd, le);
    lemma_isort_len(kd, le);
    let r = isort(kd, le);
    let o = sorted_order(keys, le);
    assert forall|j: int| 0 <= j < r.len() implies #[trigger] r[j].0 == keys[r[j].1] && o[j] == r[j].1 by {
        let w = choose|m: int| 0 <= m < kd.len() && kd[m] == r[j];
    }
    assert forall|i: int, j: int| 0 <= i < j < keys.len() implies #[trigger] o[i] != #[trigger] o[j] by {
        assert(r[i].1 != r[j].1);
        assert(o[i] == r[i].1 && o[j] == r[j].1);
    }
    assert forall|i: int, j: int| 0 <= i < j < keys.len() implies le(keys[#[trigger] o[i]], keys[#[trigger] o[j]]) by {
        assert(le(r[i].0, r[j].0));
        assert(r[i].0 == keys[r[i].1] && o[i] == r[i].1);
        assert(r[j].0 == keys[r[j].1] && o[j] == r[j].1);
    }
}

/// `le` relates two values both ways only when they are equal.
pub open spec fn antisymmetric<K>(le: spec_fn(K, K) -> bool) -> bool {
    forall|a: K, b: K| #[trigger] le(a, b) && #[trigger] le(b, a) ==> a == b
}

/// No value occurs twice.
pub open spec fn no_dups<K>(s: Seq<K>) -> bool {
    forall|i: int, j: int| 0 <= i < j < s.len() ==> #[trigger] s[i] != #[trigger] s[j]
}

/// Inserting keeps every entry and adds `x`.
proof fn lemma_ins_keeps<K>(s: Seq<(K, int)>, x: (K, int), le: spec_fn(K, K) -> bool)
    ensures
        ins(s, x, le).contains(x),
        forall|j: int| 0 <= j < s.len() ==> ins(s, x, le).contains(#[trigger] s[j]),
    decreases s.len(),
{
    if s.len() == 0 {
        assert(ins(s, x, le)[0] == x);
    } else if le(s.last().0, x.0) {
        let r = s.push(x);
        assert(r[s.len() as int] == x);
        assert forall|j: int| 0 <= j < s.len() implies r.contains(#[trigger] s[j]) by {
            assert(r[j] == s[j]);
        }
    } else {
        let d = s.drop_last();
        lemma_ins_keeps(d, x, le);
        lemma_ins_len(d, x, le);
        let q = ins(d, x, le);
        let r = q.push(s.last());
        assert(r == ins(s, x, le));
        let w = choose|m: int| 0 <= m < q.len() && q[m] == x;
        assert(r[w] == x);
        assert forall|j: int| 0 <= j < s.len() implies r.contains(#[trigger] s[j]) by {
            if j < s.len() - 1 {
                assert(d[j] == s[j]);
                let v = choose|m: int| 0 <= m < q.len() && q[m] == d[j];
                assert(r[v] == q[v]);
            } else {
                assert(r[q.len() as int] == s[j]);
            }
        }
    }
}

/// Sorting keeps every entry.
proof fn lemma_isort_keeps<K>(s: Seq<(K, int)>, le: spec_fn(K, K) -> bool)
    ensures
        forall|j: int| 0 <= j < s.len() ==> isort(s, le).contains(#[trigger] s[j]),
    decreases s.len(),
{
    if s.len() > 0 {
        let d = s.drop_last();
        lemma_isort_keeps(d, le);
        lemma_ins_keeps(isort(d, le), s.last(), le);
        let t = isort(d, le);
        assert forall|j: int| 0 <= j < s.len() implies isort(s, le).contains(#[trigger] s[j]) by {
            if j < s.len() - 1 {
                assert(d[j] == s[j]);
                let v = choose|m: int| 0 <= m < t.len() && t[m] == d[j];
                assert(t.contains(t[v]));
            }
        }
    }
}

/// Whether `j` stands somewhere in `o`.
pub open spec fn listed(o: Seq<int>, j: int) -> bool {
    exists|i: int| 0 <= i < o.len() && o[i] == j
}

/// Every index of `keys` stands somewhere in its stable order.
pub proof fn sorted_order_covers<K>(keys: Seq<K>, le: spec_fn(K, K) -> bool)
    ensures
        forall|j: int| 0 <= j < keys.len() ==> #[trigger] listed(sorted_order(keys, le), j),
{
    let kd = keyed(keys);
    lemma_isort_keeps(kd, le);
    lemma_isort_len(kd, le);
    let r = isort(kd, le);
    let o = sorted_order(keys, le);
    assert forall|j: int| 0 <= j < keys.len() implies #[trigger] listed(o, j) by {
        assert(kd[j] == (keys[j], j));
        let i = choose|m: int| 0 <= m < r.len() && r[m] == kd[j];
        assert(o[i] == r[i].1);
    }
}

/// Two sequences in `le` order without repeats that hold the same values
/// are equal.
proof fn lemma_sorted_seqs_equal<K>(a: Seq<K>, b: Seq<K>, le: spec_fn(K, K) -> bool)
    requires
        antisymmetric(le),
        no_dups(a),
        no_dups(b),
        forall|i: int, j: int| 0 <= i < j < a.len() ==> le(#[trigger] a[i], #[trigger] a[j]),
        forall|i: int, j: int| 0 <= i < j < b.len() ==> le(#[trigger] b[i], #[trigger] b[j]),
        forall|x: K| a.contains(x) <==> b.contains(x),
    ensures
        a == b,
    decreases a.len(),
{
    if a.len() == 0 {
        if b.len() > 0 {
            assert(b.contains(b[0]));
        }
        assert(a =~= b);
    } else {
        assert(a.contains(a[0]));
        let j = choose|m: int| 0 <= m < b.len() && b[m] == a[0];
        assert(b.contains(b[0]));
        let k = choose|m: int| 0 <= m < a.len() && a[m] == b[0];
        if j > 0 {
            assert(le(b[0], b[j]));
            if k > 0 {
                assert(le(a[0], a[k]));
                assert(a[0] == b[0]);
            }
            assert(b[0] == b[j]);
        }
        assert(a[0] == b[0]);
        let a1 = a.drop_first();
        let b1 = b.drop_first();
        assert forall|x: K| a1.contains(x) <==> b1.contains(x) by {
            if a1.contains(x) {
                let p = choose|m: int| 0 <= m < a1.len() && a1[m] == x;
                assert(a[p + 1] == x);
                assert(a.contains(x));
                let q = choose|m: int| 0 <= m < b.len() && b[m] == x;
                assert(q != 0);
                assert(b1[q - 1] == x);
            }
            if b1.contains(x) {
                let p = choose|m: int| 0 <= m < b1.len() && b1[m] == x;
                assert(b[p + 1] == x);
                assert(b.contains(x));
                let q = choose|m: int| 0 <= m < a.len() && a[m] == x;
                assert(q != 0);
                assert(a1[q - 1] == x);
            }
        }
        assert forall|i: int, m: int| 0 <= i < m < a1.len() implies le(#[trigger] a1[i], #[trigger] a1[m]) by {
            assert(le(a[i + 1], a[m + 1]));
        }
        assert forall|i: int, m: int| 0 <= i < m < b1.len() implies le(#[trigger] b1[i], #[trigger] b1[m]) by {
            assert(le(b[i + 1], b[m + 1]));
        }
        assert forall|i: int, m: int| 0 <= i < m < a1.len() implies #[trigger] a1[i] != #[trigger] a1[m] by {
            assert(a[i + 1] != a[m + 1]);
        }
        assert forall|i: int, m: int| 0 <= i < m < b1.len() implies #[trigger] b1[i] != #[trigger] b1[m] by {
            assert(b[i + 1] != b[m + 1]);
        }
        lemma_sorted_seqs_equal(a1, b1, le);
        assert(a =~= seq![a[0]] + a1);
        assert(b =~= seq![b[0]] + b1);
    }
}

/// Two key lists without repeats that hold the same keys list them in the
/// same stable order: position by position, the keys they put there agree.
pub proof fn sorted_orders_agree<K>(k1: Seq<K>, k2: Seq<K>, le: spec_fn(K, K) -> bool)
    requires
        total_preorder(le),
        antisymmetric(le),
        no_dups(k1),
        no_dups(k2),
        forall|x: K| k1.contains(x) <==> k2.contains(x),
    ensures
        k1.len() == k2.len(),
        forall|i: int|
            0 <= i < k1.len() ==> k1[#[trigger] sorted_order(k1, le)[i]] == k2[sorted_order(k2, le)[i]],
{
    sorted_order_sorts(k1, le);
    sorted_order_sorts(k2, le);
    sorted_order_covers(k1, le);
    sorted_order_covers(k2, le);
    let o1 = sorted_order(k1, le);
    let o2 = sorted_order(k2, le);
    let a = Seq::new(k1.len(), |i: int| k1[o1[i]]);
    let b = Seq::new(k2.len(), |i: int| k2[o2[i]]);
    assert forall|i: int, j: int| 0 <= i < j < a.len() implies #[trigger] a[i] != #[trigger] a[j] by {
        assert(o1[i] != o1[j]);
    }
    assert forall|i: int, j: int| 0 <= i < j < b.len() implies #[trigger] b[i] != #[trigger] b[j] by {
        assert(o2[i] != o2[j]);
    }
    assert forall|i: int, j: int| 0 <= i < j < a.len() implies le(#[trigger] a[i], #[trigger] a[j]) by {
        assert(le(k1[o1[i]], k1[o1[j]]));
    }
    assert forall|i: int, j: int| 0 <= i < j < b.len() implies le(#[trigger] b[i], #[trigger] b[j]) by {
        assert(le(k2[o2[i]], k2[o2[j]]));
    }
    assert forall|x: K| a.contains(x) <==> k1.contains(x) by {
        if a.contains(x) {
            let i = choose|m: int| 0 <= m < a.len() && a[m] == x;
            assert(k1[o1[i]] == x);
        }
        if k1.contains(x) {
            let j = choose|m: int| 0 <= m < k1.len() && k1[m] == x;
            assert(listed(o1, j));
            let i = choose|m: int| 0 <= m < o1.len() && o1[m] == j;
            assert(a[i] == x);
        }
    }
    assert forall|x: K| b.contains(x) <==> k2.contains(x) by {
        if b.contains(x) {
            let i = choose|m: int| 0 <= m < b.len() && b[m] == x;
            assert(k2[o2[i]] == x);
        }
        if k2.contains(x) {
            let j = choose|m: int| 0 <= m < k2.len() && k2[m] == x;
            assert(listed(o2, j));
            let i = choose|m: int| 0 <= m < o2.len() && o2[m] == j;
            assert(b[i] == x);
        }
    }
    lemma_sorted_seqs_equal(a, b, le);
    assert forall|i: int| 0 <= i < k1.len() implies k1[#[trigger] o1[i]] == k2[o2[i]] by {
        assert(a[i] == b[i]);
    }
}

/// Code-point order relates two different texts in one direction only.
pub proof fn text_order_is_antisymmetric()
    ensures
        antisymmetric(text_order()),
{
    assert forall|a: Seq<char>, b: Seq<char>|
        #[trigger] text_order()(a, b) && #[trigger] text_order()(b, a) implies a == b by {
        lemma_text_le_antisym(a, b);
    }
}

proof fn lemma_text_le_antisym(a: Seq<char>, b: Seq<char>)
    requires
        text_le(a, b),
        text_le(b, a),
    ensures
        a == b,
    decreases a.len(),
{
    if a.len() == 0 {
        assert(b.len() == 0);
        assert(a =~= b);
    } else {
        assert(b.len() > 0);
        if a[0] != b[0] {
            assert((a[0] as u32) < (b[0] as u32) && (b[0] as u32) < (a[0] as u32));
        }
        lemma_text_le_antisym(a.drop_first(), b.drop_first());
        assert(a =~= seq![a[0]] + a.drop_first());
        assert(b =~= seq![b[0]] + b.drop_first());
    }
}

/// Code-point order of texts is total and transitive.
pub proof fn text_order_is_total_preorder()
    ensures
        total_preorder(text_order()),
{
    assert forall|a: Seq<char>, b: Seq<char>| #[trigger] text_order()(a, b) || text_order()(b, a) by {
        lemma_text_le_total(a, b);
    }
    assert forall|a: Seq<char>, b: Seq<char>, c: Seq<char>|
        #[trigger] text_order()(a, b) && #[trigger] text_order()(b, c) implies text_order()(a, c) by {
        lemma_text_le_trans(a, b, c);
    }
}

/// Numeric order is total and transitive.
pub proof fn nat_order_is_total_preorder()
    ensures
        total_preorder(nat_le()),
{
}

proof fn lemma_text_le_total(a: Seq<char>, b: Seq<char>)
    ensures
        text_le(a, b) || text_le(b, a),
    decreases a.len(),
{
    if a.len() > 0 && b.len() > 0 && a[0] == b[0] {
        lemma_text_le_total(a.drop_first(), b.drop_first());
    } else if a.len() > 0 && b.len() > 0 {
        let u: u32 = a[0] as u32;
        let v: u32 = b[0] as u32;
        vstd::utf8::char_u32_cast(a[0], u);
        vstd::utf8::char_u32_cast(b[0], v);
        assert(u != v);
    }
}

proof fn lemma_text_le_trans(a: Seq<char>, b: Seq<char>, c: Seq<char>)
    requires
        text_le(a, b),
        text_le(b, c),
    ensures
        text_le(a, c),
    decreases a.len(),
{
    if a.len() > 0 && b.len() > 0 && c.len() > 0 && a[0] == b[0] && b[0] == c[0] {
        lemma_text_le_trans(a.drop_first(), b.drop_first(), c.drop_first());
    }
}

/// The sorted order of index prefixes of `keys`: the entries `0..i`.
pub open spec fn sorted_prefix<K>(keys: Seq<K>, le: spec_fn(K, K) -> bool, i: int) -> Seq<(K, int)> {
    isort(keyed(keys).take(i), le)
}

/// Indices of numeric keys in stable ascending order
/// (`sort_by_key` with a numeric key).
pub fn sort_indices_by_value(keys: &Vec<u64>) -> (r: Vec<usize>)
    ensures
        r@.map_values(|x: usize| x as int) == sorted_order(
            keys@.map_values(|k: u64| k as nat),
            nat_le(),
        ),
{
    let ghost ks = keys@.map_values(|k: u64| k as nat);
    let ghost le = nat_le();
    let mut res: Vec<usize> = Vec::new();
    let mut i: usize = 0;
    while i < keys.len()
        invariant
            i <= keys.len(),
            ks == keys@.map_values(|k: u64| k as nat),
            le == nat_le(),
            res@.len() == i,
            res@.map_values(|x: usize| (ks[x as int], x as int)) == sorted_prefix(ks, le, i as int),
            forall|j: int| 0 <= j < res@.len() ==> #[trigger] res@[j] < i,
        decreases keys.len() - i,
    {
        let ghost s = res@.map_values(|x: usize| (ks[x as int], x as int));
        let mut p: usize = res.len();
        while p > 0 && keys[res[p - 1]] > keys[i]
            invariant
                p <= res@.len(),
                i < keys.len(),
                ks == keys@.map_values(|k: u64| k as nat),
                le == nat_le(),
                s == res@.map_values(|x: usize| (ks[x as int], x as int)),
                forall|j: int| 0 <= j < res@.len() ==> #[trigger] res@[j] < i,
                forall|j: int| p <= j < s.len() ==> !le(#[trigger] s[j].0, ks[i as int]),
            decreases p,
        {
            assert(s[p - 1] == (ks[res@[p - 1] as int], res@[p - 1] as int));
            p = p - 1;
        }
        proof {
            if p > 0 {
                assert(s[p - 1] == (ks[res@[p - 1] as int], res@[p - 1] as int));
            }
            lemma_ins_at(s, (ks[i as int], i as int), le, p as int);
            assert(keyed(ks).take(i + 1).drop_last() =~= keyed(ks).take(i as int));
            assert(keyed(ks).take(i + 1).last() == (ks[i as int], i as int));
        }
        res.insert(p, i);
        proof {
            assert(res@.map_values(|x: usize| (ks[x as int], x as int)) =~= s.take(p as int) + seq![
                (ks[i as int], i as int),
            ] + s.skip(p as int));
        }
        i = i + 1;
    }
    proof {
        assert(keyed(ks).take(keys.len() as int) =~= keyed(ks));
        assert(res@.map_values(|x: usize| x as int) =~= sorted_order(ks, le));
    }
    res
}

/// Whether `a` orders before or equal to `b` by code point.
pub fn text_le_exec(a: &Vec<char>, b: &Vec<char>) -> (r: bool)
    ensures
        r == text_le(a@, b@),
{
    let mut i: usize = 0;
    assert(a@.skip(0) =~= a@);
    assert(b@.skip(0) =~= b@);
    while i < a.len() && i < b.len() && a[i] == b[i]
        invariant
            i <= a.len(),
            i <= b.len(),
            text_le(a@, b@) == text_le(a@.skip(i as int), b@.skip(i as int)),
        decreases a.len() - i,
    {
        assert(a@.skip(i as int).drop_first() =~= a@.skip(i + 1));
        assert(b@.skip(i as int).drop_first() =~= b@.skip(i + 1));
        i = i + 1;
    }
    if i == a.len() {
        true
    } else if i == b.len() {
        false
    } else {
        (a[i] as u32) < (b[i] as u32)
    }
}

/// Indices of texts in stable ascending order (`sort` / `sort_by_key` on
/// strings).
pub fn sort_indices_by_text(keys: &Vec<Vec<char>>) -> (r: Vec<usize>)
    ensures
        r@.map_values(|x: usize| x as int) == sorted_order(
            keys@.map_values(|k: Vec<char>| k@),
            text_order(),
        ),
{
    let ghost ks = keys@.map_values(|k: Vec<char>| k@);
    let ghost le = text_order();
    let mut res: Vec<usize> = Vec::new();
    let mut i: usize = 0;
    while i < keys.len()
        invariant
            i <= keys.len(),
            ks == keys@.map_values(|k: Vec<char>| k@),
            le == text_order(),
            res@.len() == i,
            res@.map_values(|x: usize| (ks[x as int], x as int)) == sorted_prefix(ks, le, i as int),
            forall|j: int| 0 <= j < res@.len() ==> #[trigger] res@[j] < i,
        decreases keys.len() - i,
    {
        let ghost s = res@.map_values(|x: usize| (ks[x as int], x as int));
        let mut p: usize = res.len();
        while p > 0 && !text_le_exec(&keys[res[p - 1]], &keys[i])
            invariant
                p <= res@.len(),
                i < keys.len(),
                ks == keys@.map_values(|k: Vec<char>| k@),
                le == text_order(),
                s == res@.map_values(|x: usize| (ks[x as int], x as int)),
                forall|j: int| 0 <= j < res@.len() ==> #[trigger] res@[j] < i,
                forall|j: int| p <= j < s.len() ==> !le(#[trigger] s[j].0, ks[i as int]),
            decreases p,
        {
            assert(s[p - 1] == (ks[res@[p - 1] as int], res@[p - 1] as int));
            p = p - 1;
        }
        proof {
            if p > 0 {
                assert(s[p - 1] == (ks[res@[p - 1] as int], res@[p - 1] as int));
            }
            lemma_ins_at(s, (ks[i as int], i as int), le, p as int);
            assert(keyed(ks).take(i + 1).drop_last() =~= keyed(ks).take(i as int));
            assert(keyed(ks).take(i + 1).last() == (ks[i as int], i as int));
        }
        res.insert(p, i);
        proof {
            assert(res@.map_values(|x: usize| (ks[x as int], x as int)) =~= s.take(p as int) + seq![
                (ks[i as int], i as int),
            ] + s.skip(p as int));
        }
        i = i + 1;
    }
    proof {
        assert(keyed(ks).take(keys.len() as int) =~= keyed(ks));
        assert(res@.map_values(|x: usize| x as int) =~= sorted_order(ks, le));
    }
    res
}

} // verus!
