//! Sequences of key/value pairs used as small maps that remember insertion
//! order: lookup, replacement in place, removal, and the facts about them
//! that the caches rely on.

use vstd::prelude::*;

verus! {

/// `k` is the key of some pair.
pub open spec fn has_key<K, V>(s: Seq<(K, V)>, k: K) -> bool {
    exists|i: int| 0 <= i < s.len() && (#[trigger] s[i]).0 == k
}

/// The position of `k` (meaningful when `has_key(s, k)`).
pub open spec fn pos<K, V>(s: Seq<(K, V)>, k: K) -> int {
    choose|i: int| 0 <= i < s.len() && (#[trigger] s[i]).0 == k
}

/// No key occurs twice.
pub open spec fn unique<K, V>(s: Seq<(K, V)>) -> bool {
    forall|i: int, j: int| 0 <= i < s.len() && 0 <= j < s.len() && i != j ==> (#[trigger] s[i]).0 != (#[trigger] s[j]).0
}

/// The value stored under `k`.
pub open spec fn get<K, V>(s: Seq<(K, V)>, k: K) -> Option<V> {
    if has_key(s, k) {
        Some(s[pos(s, k)].1)
    } else {
        None
    }
}

/// `s` with `k` mapped to `v`: the pair of `k` replaced in place, or a new
/// pair at the end.
pub open spec fn put<K, V>(s: Seq<(K, V)>, k: K, v: V) -> Seq<(K, V)> {
    if has_key(s, k) {
        s.update(pos(s, k), (k, v))
    } else {
        s.push((k, v))
    }
}

/// `s` without the pair of `k`.
pub open spec fn remove_key<K, V>(s: Seq<(K, V)>, k: K) -> Seq<(K, V)> {
    if has_key(s, k) {
        s.remove(pos(s, k))
    } else {
        s
    }
}

/// With unique keys, the position of a key is the one index holding it.
pub proof fn lemma_pos<K, V>(s: Seq<(K, V)>, i: int)
    requires
        unique(s),
        0 <= i < s.len(),
    ensures
        has_key(s, s[i].0),
        pos(s, s[i].0) == i,
{
    let k = s[i].0;
    assert(has_key(s, k));
    let p = pos(s, k);
    assert(s[p].0 == k);
}

/// Facts about `put` on unique keys.
pub proof fn lemma_put<K, V>(s: Seq<(K, V)>, k: K, v: V)
    requires
        unique(s),
    ensures
        unique(put(s, k, v)),
        get(put(s, k, v), k) == Some(v),
        forall|k2: K| k2 != k ==> get(put(s, k, v), k2) == get(s, k2),
        put(s, k, v).len() == if has_key(s, k) { s.len() } else { s.len() + 1 },
{
    let p = put(s, k, v);
    if has_key(s, k) {
        let q = pos(s, k);
        assert(p[q].0 == k);
        assert forall|i: int, j: int| 0 <= i < p.len() && 0 <= j < p.len() && i != j implies (#[trigger] p[i]).0
            != (#[trigger] p[j]).0 by {
            if i == q {
                assert(s[j].0 != s[q].0);
            } else if j == q {
                assert(s[i].0 != s[q].0);
            } else {
                assert(s[i].0 != s[j].0);
            }
        }
        assert forall|k2: K| k2 != k implies get(p, k2) == get(s, k2) by {
            if has_key(s, k2) {
                let r = pos(s, k2);
                assert(r != q);
                assert(p[r].0 == k2);
                lemma_pos(p, r);
            } else if has_key(p, k2) {
                let r2 = pos(p, k2);
                assert(r2 != q);
                assert(s[r2].0 == k2);
            }
        }
        lemma_pos(p, q);
    } else {
        let n = s.len() as int;
        assert(p[n].0 == k);
        assert forall|i: int, j: int| 0 <= i < p.len() && 0 <= j < p.len() && i != j implies (#[trigger] p[i]).0
            != (#[trigger] p[j]).0 by {
            if i == n {
                assert(s[j].0 != k);
            } else if j == n {
                assert(s[i].0 != k);
            } else {
                assert(s[i].0 != s[j].0);
            }
        }
        assert forall|k2: K| k2 != k implies get(p, k2) == get(s, k2) by {
            if has_key(s, k2) {
                let r = pos(s, k2);
                assert(p[r].0 == k2);
                lemma_pos(p, r);
            } else if has_key(p, k2) {
                let r2 = pos(p, k2);
                assert(r2 != n);
                assert(s[r2].0 == k2);
            }
        }
        lemma_pos(p, n);
    }
}

/// Facts about `remove_key` on unique keys.
pub proof fn lemma_remove_key<K, V>(s: Seq<(K, V)>, k: K)
    requires
        unique(s),
    ensures
        unique(remove_key(s, k)),
        !has_key(remove_key(s, k), k),
        forall|k2: K| k2 != k ==> get(remove_key(s, k), k2) == get(s, k2),
        remove_key(s, k).len() == if has_key(s, k) { s.len() - 1 } else { s.len() as int },
{
    if has_key(s, k) {
        let q = pos(s, k);
        let r = s.remove(q);
        assert forall|i: int, j: int| 0 <= i < r.len() && 0 <= j < r.len() && i != j implies (#[trigger] r[i]).0
            != (#[trigger] r[j]).0 by {
            let i2 = if i < q { i } else { i + 1 };
            let j2 = if j < q { j } else { j + 1 };
            assert(r[i] == s[i2] && r[j] == s[j2]);
        }
        if has_key(r, k) {
            let t = pos(r, k);
            let t2 = if t < q { t } else { t + 1 };
            assert(r[t] == s[t2]);
        }
        assert forall|k2: K| k2 != k implies get(r, k2) == get(s, k2) by {
            if has_key(s, k2) {
                let a = pos(s, k2);
                assert(a != q);
                let a2 = if a < q { a } else { a - 1 };
                assert(r[a2] == s[a]);
                lemma_pos(r, a2);
            } else if has_key(r, k2) {
                let b = pos(r, k2);
                let b2 = if b < q { b } else { b + 1 };
                assert(r[b] == s[b2]);
            }
        }
    }
}

/// `q` without any occurrence of `x`.
pub open spec fn without<T>(q: Seq<T>, x: T) -> Seq<T>
    decreases q.len(),
{
    if q.len() == 0 {
        q
    } else if q.last() == x {
        without(q.drop_last(), x)
    } else {
        without(q.drop_last(), x).push(q.last())
    }
}

/// `s.push(a)` holds exactly what `s` holds and `a`.
pub proof fn lemma_push_contains<T>(s: Seq<T>, a: T, y: T)
    ensures
        s.push(a).contains(y) <==> (s.contains(y) || a == y),
{
    if s.push(a).contains(y) {
        let i = choose|i: int| 0 <= i < s.push(a).len() && s.push(a)[i] == y;
        if i < s.len() {
            assert(s[i] == y);
        }
    }
    if s.contains(y) {
        let i = choose|i: int| 0 <= i < s.len() && s[i] == y;
        assert(s.push(a)[i] == y);
    }
    if a == y {
        assert(s.push(a)[s.len() as int] == y);
    }
}

/// Removing every `x` leaves exactly the other elements.
pub proof fn lemma_without<T>(q: Seq<T>, x: T)
    ensures
        forall|y: T| #[trigger] without(q, x).contains(y) <==> (q.contains(y) && y != x),
        without(q, x).len() <= q.len(),
    decreases q.len(),
{
    if q.len() > 0 {
        let d = q.drop_last();
        let l = q.last();
        lemma_without(d, x);
        assert(d.push(l) =~= q);
        assert forall|y: T| #[trigger] without(q, x).contains(y) <==> (q.contains(y) && y != x) by {
            lemma_push_contains(d, l, y);
            lemma_push_contains(without(d, x), l, y);
        }
    }
}

} // verus!
