//! The store abstraction: association tables keyed by composite byte-string
//! keys.
//!
//! Every persistent mapping of the ledger (event records, ticket types,
//! stages, whitelists, purchase counters, nonce counters, the income ledger)
//! is a `Table` from a composite key — a short list of byte strings — to a
//! value.  Sets are tables with `()` values.  A table is modelled by the
//! sequence of its key/value pairs in insertion order; lookups are by first
//! (and, under `keys_unique`, only) match.

use vstd::prelude::*;

use crate::bytes::bytes_eq;
use crate::bytes::clone_bytes;

verus! {

/// Index of the first entry of `kvs` whose key is `k`, or `-1`.
pub open spec fn key_index<T>(kvs: Seq<(Seq<Seq<u8>>, T)>, k: Seq<Seq<u8>>) -> int
    decreases kvs.len(),
{
    if kvs.len() == 0 {
        -1
    } else if kvs[0].0 == k {
        0
    } else {
        let r = key_index(kvs.drop_first(), k);
        if r < 0 {
            -1
        } else {
            r + 1
        }
    }
}

/// Whether some entry of `kvs` has key `k`.
pub open spec fn has_key<T>(kvs: Seq<(Seq<Seq<u8>>, T)>, k: Seq<Seq<u8>>) -> bool {
    key_index(kvs, k) >= 0
}

/// The value stored under `k`.
pub open spec fn val_of<T>(kvs: Seq<(Seq<Seq<u8>>, T)>, k: Seq<Seq<u8>>) -> T {
    kvs[key_index(kvs, k)].1
}

/// No two entries share a key.
pub open spec fn keys_unique<T>(kvs: Seq<(Seq<Seq<u8>>, T)>) -> bool {
    forall|i: int, j: int| 0 <= i < j < kvs.len() ==> kvs[i].0 != kvs[j].0
}

/// `kvs` with `v` stored under `k`: in place when the key is present,
/// appended otherwise.
pub open spec fn kv_upsert<T>(kvs: Seq<(Seq<Seq<u8>>, T)>, k: Seq<Seq<u8>>, v: T) -> Seq<
    (Seq<Seq<u8>>, T),
> {
    if has_key(kvs, k) {
        kvs.update(key_index(kvs, k), (k, v))
    } else {
        kvs.push((k, v))
    }
}

/// How the bytes of a composite key relate to its abstraction.
pub proof fn lemma_key_view(v: Vec<Vec<u8>>)
    ensures
        v.deep_view().len() == v@.len(),
        forall|i: int| 0 <= i < v@.len() ==> v.deep_view()[i] == v@[i]@,
{
    assert forall|i: int| 0 <= i < v@.len() implies v.deep_view()[i] == v@[i]@ by {
        assert(v@[i].deep_view() =~= v@[i]@);
    }
}

/// `key_index` either reports no match at all or the first match.
pub proof fn lemma_key_index_props<T>(kvs: Seq<(Seq<Seq<u8>>, T)>, k: Seq<Seq<u8>>)
    ensures
        key_index(kvs, k) == -1 ==> forall|j: int| 0 <= j < kvs.len() ==> kvs[j].0 != k,
        key_index(kvs, k) != -1 ==> {
            let i = key_index(kvs, k);
            &&& 0 <= i < kvs.len()
            &&& kvs[i].0 == k
            &&& forall|j: int| 0 <= j < i ==> kvs[j].0 != k
        },
    decreases kvs.len(),
{
    if kvs.len() == 0 {
    } else if kvs[0].0 == k {
    } else {
        let rest = kvs.drop_first();
        lemma_key_index_props(rest, k);
        assert(forall|j: int| 0 <= j < rest.len() ==> rest[j] == kvs[j + 1]);
        let r = key_index(rest, k);
        if r < 0 {
            assert forall|j: int| 0 <= j < kvs.len() implies kvs[j].0 != k by {
                if j > 0 {
                    assert(kvs[j] == rest[j - 1]);
                }
            }
        } else {
            assert(kvs[r + 1] == rest[r]);
            assert forall|j: int| 0 <= j < r + 1 implies kvs[j].0 != k by {
                if j > 0 {
                    assert(kvs[j] == rest[j - 1]);
                }
            }
        }
    }
}

/// If `i` is the first index whose key is `k`, then `key_index` is `i`.
pub proof fn lemma_key_index_first<T>(kvs: Seq<(Seq<Seq<u8>>, T)>, k: Seq<Seq<u8>>, i: int)
    requires
        0 <= i < kvs.len(),
        kvs[i].0 == k,
        forall|j: int| 0 <= j < i ==> kvs[j].0 != k,
    ensures
        key_index(kvs, k) == i,
    decreases i,
{
    if i == 0 {
    } else {
        assert(kvs[0].0 != k);
        assert(forall|j: int|
            0 <= j < kvs.drop_first().len() ==> kvs.drop_first()[j] == kvs[j + 1]);
        lemma_key_index_first(kvs.drop_first(), k, i - 1);
    }
}

/// Under unique keys, any matching index is the looked-up index.
pub proof fn lemma_key_index_unique<T>(kvs: Seq<(Seq<Seq<u8>>, T)>, k: Seq<Seq<u8>>, i: int)
    requires
        keys_unique(kvs),
        0 <= i < kvs.len(),
        kvs[i].0 == k,
    ensures
        key_index(kvs, k) == i,
{
    assert(forall|j: int| 0 <= j < i ==> kvs[j].0 != k);
    lemma_key_index_first(kvs, k, i);
}

/// What `kv_upsert` does to every lookup.
pub proof fn lemma_upsert<T>(kvs: Seq<(Seq<Seq<u8>>, T)>, k: Seq<Seq<u8>>, v: T)
    requires
        keys_unique(kvs),
    ensures
        keys_unique(kv_upsert(kvs, k, v)),
        has_key(kv_upsert(kvs, k, v), k),
        val_of(kv_upsert(kvs, k, v), k) == v,
        forall|k2: Seq<Seq<u8>>| k2 != k ==> has_key(kv_upsert(kvs, k, v), k2) == has_key(kvs, k2),
        forall|k2: Seq<Seq<u8>>|
            k2 != k && has_key(kvs, k2) ==> val_of(kv_upsert(kvs, k, v), k2) == val_of(kvs, k2),
        kv_upsert(kvs, k, v).len() == kvs.len() + (if has_key(kvs, k) {
            0int
        } else {
            1int
        }),
        forall|i: int| 0 <= i < kvs.len() ==> kv_upsert(kvs, k, v)[i].0 == kvs[i].0,
        !has_key(kvs, k) ==> kv_upsert(kvs, k, v)[kvs.len() as int].0 == k,
{
    let s2 = kv_upsert(kvs, k, v);
    lemma_key_index_props(kvs, k);
    if has_key(kvs, k) {
        let i = key_index(kvs, k);
        assert(forall|j: int| 0 <= j < s2.len() ==> s2[j].0 == kvs[j].0);
        assert(keys_unique(s2));
        lemma_key_index_unique(s2, k, i);
        assert forall|k2: Seq<Seq<u8>>| k2 != k implies has_key(s2, k2) == has_key(kvs, k2) && (
        has_key(kvs, k2) ==> val_of(s2, k2) == val_of(kvs, k2)) by {
            lemma_key_index_props(kvs, k2);
            lemma_key_index_props(s2, k2);
            if has_key(kvs, k2) {
                let i2 = key_index(kvs, k2);
                lemma_key_index_unique(s2, k2, i2);
            } else {
                if has_key(s2, k2) {
                    let i2 = key_index(s2, k2);
                    assert(kvs[i2].0 == k2);
                }
            }
        }
    } else {
        assert(s2 == kvs.push((k, v)));
        assert(forall|j: int| 0 <= j < kvs.len() ==> s2[j] == kvs[j]);
        assert forall|i: int, j: int| 0 <= i < j < s2.len() implies s2[i].0 != s2[j].0 by {
            if j == kvs.len() {
                assert(s2[j].0 == k);
                assert(kvs[i].0 != k);
            }
        }
        lemma_key_index_unique(s2, k, kvs.len() as int);
        assert forall|k2: Seq<Seq<u8>>| k2 != k implies has_key(s2, k2) == has_key(kvs, k2) && (
        has_key(kvs, k2) ==> val_of(s2, k2) == val_of(kvs, k2)) by {
            lemma_key_index_props(kvs, k2);
            lemma_key_index_props(s2, k2);
            if has_key(kvs, k2) {
                let i2 = key_index(kvs, k2);
                lemma_key_index_unique(s2, k2, i2);
            } else {
                if has_key(s2, k2) {
                    let i2 = key_index(s2, k2);
                    assert(s2[i2].0 == k2);
                    assert(i2 != kvs.len());
                    assert(kvs[i2].0 == k2);
                }
            }
        }
    }
}

/// What removing the entry at `i` does to every lookup.
pub proof fn lemma_remove<T>(kvs: Seq<(Seq<Seq<u8>>, T)>, i: int)
    requires
        keys_unique(kvs),
        0 <= i < kvs.len(),
    ensures
        keys_unique(kvs.remove(i)),
        !has_key(kvs.remove(i), kvs[i].0),
        forall|k2: Seq<Seq<u8>>|
            k2 != kvs[i].0 ==> has_key(kvs.remove(i), k2) == has_key(kvs, k2) && (has_key(
                kvs,
                k2,
            ) ==> val_of(kvs.remove(i), k2) == val_of(kvs, k2)),
{
    let s2 = kvs.remove(i);
    assert(forall|j: int| 0 <= j < i ==> s2[j] == kvs[j]);
    assert(forall|j: int| i <= j < s2.len() ==> s2[j] == kvs[j + 1]);
    assert(keys_unique(s2));
    if has_key(s2, kvs[i].0) {
        lemma_key_index_props(s2, kvs[i].0);
        let j = key_index(s2, kvs[i].0);
        if j < i {
            assert(kvs[j].0 == kvs[i].0);
        } else {
            assert(kvs[j + 1].0 == kvs[i].0);
        }
        assert(false);
    }
    assert forall|k2: Seq<Seq<u8>>| k2 != kvs[i].0 implies has_key(s2, k2) == has_key(kvs, k2) && (
    has_key(kvs, k2) ==> val_of(s2, k2) == val_of(kvs, k2)) by {
        lemma_key_index_props(kvs, k2);
        lemma_key_index_props(s2, k2);
        if has_key(kvs, k2) {
            let i2 = key_index(kvs, k2);
            assert(i2 != i);
            if i2 < i {
                lemma_key_index_unique(s2, k2, i2);
            } else {
                assert(s2[i2 - 1].0 == k2);
                lemma_key_index_unique(s2, k2, i2 - 1);
            }
        } else {
            if has_key(s2, k2) {
                let i2 = key_index(s2, k2);
                if i2 < i {
                    assert(kvs[i2].0 == k2);
                } else {
                    assert(kvs[i2 + 1].0 == k2);
                }
                assert(false);
            }
        }
    }
}

/// `kvs` without the entry stored under `k`, if any.
pub open spec fn kv_remove<T>(kvs: Seq<(Seq<Seq<u8>>, T)>, k: Seq<Seq<u8>>) -> Seq<
    (Seq<Seq<u8>>, T),
> {
    if has_key(kvs, k) {
        kvs.remove(key_index(kvs, k))
    } else {
        kvs
    }
}

/// What `kv_remove` does to every lookup.
pub proof fn lemma_kv_remove<T>(kvs: Seq<(Seq<Seq<u8>>, T)>, k: Seq<Seq<u8>>)
    requires
        keys_unique(kvs),
    ensures
        keys_unique(kv_remove(kvs, k)),
        !has_key(kv_remove(kvs, k), k),
        forall|k2: Seq<Seq<u8>>|
            k2 != k ==> has_key(kv_remove(kvs, k), k2) == has_key(kvs, k2) && (has_key(kvs, k2)
                ==> val_of(kv_remove(kvs, k), k2) == val_of(kvs, k2)),
        forall|i: int|
            0 <= i < kv_remove(kvs, k).len() ==> kvs.contains(#[trigger] kv_remove(kvs, k)[i]),
{
    lemma_key_index_props(kvs, k);
    if has_key(kvs, k) {
        let ki = key_index(kvs, k);
        lemma_remove(kvs, ki);
        let res = kvs.remove(ki);
        assert forall|i: int| 0 <= i < res.len() implies kvs.contains(#[trigger] res[i]) by {
            if i < ki {
                assert(res[i] == kvs[i]);
            } else {
                assert(res[i] == kvs[i + 1]);
            }
        }
    } else {
        assert forall|i: int| 0 <= i < kvs.len() implies kvs.contains(#[trigger] kvs[i]) by {}
    }
}

/// Whether a key belongs to the group `(a, b, ...)`: its first two parts
/// are `a` and `b`.
pub open spec fn key_in_group2(k: Seq<Seq<u8>>, a: Seq<u8>, b: Seq<u8>) -> bool {
    k.len() >= 2 && k[0] == a && k[1] == b
}

/// `kvs` without every entry whose key belongs to the group `(a, b)`.
pub open spec fn kv_clear2<T>(kvs: Seq<(Seq<Seq<u8>>, T)>, a: Seq<u8>, b: Seq<u8>) -> Seq<
    (Seq<Seq<u8>>, T),
>
    decreases kvs.len(),
{
    if kvs.len() == 0 {
        kvs
    } else {
        let rest = kv_clear2(kvs.drop_first(), a, b);
        if key_in_group2(kvs[0].0, a, b) {
            rest
        } else {
            seq![kvs[0]] + rest
        }
    }
}

/// `kv_clear2` distributes over concatenation.
pub proof fn lemma_kv_clear2_add<T>(
    x: Seq<(Seq<Seq<u8>>, T)>,
    y: Seq<(Seq<Seq<u8>>, T)>,
    a: Seq<u8>,
    b: Seq<u8>,
)
    ensures
        kv_clear2(x + y, a, b) == kv_clear2(x, a, b) + kv_clear2(y, a, b),
    decreases x.len(),
{
    if x.len() == 0 {
        assert(x + y =~= y);
        assert(kv_clear2(x, a, b) + kv_clear2(y, a, b) =~= kv_clear2(y, a, b));
    } else {
        assert((x + y).drop_first() =~= x.drop_first() + y);
        lemma_kv_clear2_add(x.drop_first(), y, a, b);
        assert((x + y)[0] == x[0]);
        if !key_in_group2(x[0].0, a, b) {
            assert(seq![x[0]] + (kv_clear2(x.drop_first(), a, b) + kv_clear2(y, a, b)) =~= (seq![
                x[0],
            ] + kv_clear2(x.drop_first(), a, b)) + kv_clear2(y, a, b));
        }
    }
}

/// What clearing a group does to every lookup.
pub proof fn lemma_kv_clear2_props<T>(kvs: Seq<(Seq<Seq<u8>>, T)>, a: Seq<u8>, b: Seq<u8>)
    requires
        keys_unique(kvs),
    ensures
        keys_unique(kv_clear2(kvs, a, b)),
        forall|i: int|
            0 <= i < kv_clear2(kvs, a, b).len() ==> kvs.contains(#[trigger] kv_clear2(kvs, a, b)[i])
                && !key_in_group2(kv_clear2(kvs, a, b)[i].0, a, b),
        forall|k2: Seq<Seq<u8>>|
            !key_in_group2(k2, a, b) ==> has_key(kv_clear2(kvs, a, b), k2) == has_key(kvs, k2) && (
            has_key(kvs, k2) ==> val_of(kv_clear2(kvs, a, b), k2) == val_of(kvs, k2)),
        forall|k2: Seq<Seq<u8>>| key_in_group2(k2, a, b) ==> !has_key(kv_clear2(kvs, a, b), k2),
    decreases kvs.len(),
{
    let res = kv_clear2(kvs, a, b);
    if kvs.len() == 0 {
        assert forall|k2: Seq<Seq<u8>>| true implies !has_key(res, k2) || has_key(kvs, k2) by {
            lemma_key_index_props(res, k2);
        }
    } else {
        let rest = kvs.drop_first();
        assert(keys_unique(rest)) by {
            assert(forall|j: int| 0 <= j < rest.len() ==> rest[j] == kvs[j + 1]);
        }
        lemma_kv_clear2_props(rest, a, b);
        assert(forall|j: int| 0 <= j < rest.len() ==> rest[j] == kvs[j + 1]);
        let sub = kv_clear2(rest, a, b);
        // membership of results in the original
        assert forall|i: int|
            0 <= i < res.len() implies kvs.contains(#[trigger] res[i]) && !key_in_group2(
            res[i].0,
            a,
            b,
        ) by {
            if key_in_group2(kvs[0].0, a, b) {
                assert(rest.contains(res[i]));
                let j = choose|j: int| 0 <= j < rest.len() && rest[j] == res[i];
                assert(kvs[j + 1] == res[i]);
            } else {
                if i == 0 {
                    assert(res[0] == kvs[0]);
                } else {
                    assert(res[i] == sub[i - 1]);
                    assert(rest.contains(sub[i - 1]));
                    let j = choose|j: int| 0 <= j < rest.len() && rest[j] == sub[i - 1];
                    assert(kvs[j + 1] == res[i]);
                }
            }
        }
        // uniqueness
        assert forall|i: int, j: int| 0 <= i < j < res.len() implies res[i].0 != res[j].0 by {
            if key_in_group2(kvs[0].0, a, b) {
            } else {
                if i == 0 {
                    assert(res[0] == kvs[0]);
                    assert(res[j] == sub[j - 1]);
                    assert(rest.contains(sub[j - 1]));
                    let m = choose|m: int| 0 <= m < rest.len() && rest[m] == sub[j - 1];
                    assert(kvs[m + 1] == res[j]);
                }
            }
        }
        // lookups
        assert forall|k2: Seq<Seq<u8>>|
            !key_in_group2(k2, a, b) implies has_key(res, k2) == has_key(kvs, k2) && (has_key(
            kvs,
            k2,
        ) ==> val_of(res, k2) == val_of(kvs, k2)) by {
            lemma_key_index_props(kvs, k2);
            lemma_key_index_props(res, k2);
            if key_in_group2(kvs[0].0, a, b) {
                assert(kvs[0].0 != k2);
                if has_key(kvs, k2) {
                    let i2 = key_index(kvs, k2);
                    assert(i2 > 0);
                    assert(rest[i2 - 1] == kvs[i2]);
                    assert(has_key(rest, k2) && val_of(rest, k2) == val_of(kvs, k2)) by {
                        lemma_key_index_unique(rest, k2, i2 - 1);
                    }
                } else {
                    if has_key(res, k2) {
                        let i2 = key_index(res, k2);
                        assert(kvs.contains(res[i2]));
                        let m = choose|m: int| 0 <= m < kvs.len() && kvs[m] == res[i2];
                        assert(false);
                    }
                }
            } else {
                if kvs[0].0 == k2 {
                    assert(res[0] == kvs[0]);
                    lemma_key_index_unique(res, k2, 0);
                } else {
                    if has_key(kvs, k2) {
                        let i2 = key_index(kvs, k2);
                        assert(i2 > 0);
                        assert(rest[i2 - 1] == kvs[i2]);
                        lemma_key_index_unique(rest, k2, i2 - 1);
                        assert(has_key(sub, k2) && val_of(sub, k2) == val_of(rest, k2));
                        let i3 = key_index(sub, k2);
                        lemma_key_index_props(sub, k2);
                        assert(res[i3 + 1] == sub[i3]);
                        lemma_key_index_unique(res, k2, i3 + 1);
                    } else {
                        if has_key(res, k2) {
                            let i2 = key_index(res, k2);
                            assert(kvs.contains(res[i2]));
                            let m = choose|m: int| 0 <= m < kvs.len() && kvs[m] == res[i2];
                            assert(false);
                        }
                    }
                }
            }
        }
        assert forall|k2: Seq<Seq<u8>>| key_in_group2(k2, a, b) implies !has_key(res, k2) by {
            if has_key(res, k2) {
                lemma_key_index_props(res, k2);
                let i2 = key_index(res, k2);
                assert(!key_in_group2(res[i2].0, a, b));
            }
        }
    }
}

/// Pushing onto a vector pushes onto its element-wise abstraction.
pub proof fn lemma_deep_view_push<T: DeepView>(pre: Vec<T>, post: Vec<T>, x: T)
    requires
        post@ == pre@.push(x),
    ensures
        post.deep_view() == pre.deep_view().push(x.deep_view()),
{
    assert forall|k: int|
        0 <= k < post@.len() implies post.deep_view()[k] == pre.deep_view().push(x.deep_view())[k]
    by {
        assert(post.deep_view()[k] == post@[k].deep_view());
        if k < pre@.len() {
            assert(pre.deep_view()[k] == pre@[k].deep_view());
        }
    }
    assert(post.deep_view() =~= pre.deep_view().push(x.deep_view()));
}

/// True exactly when the two composite keys hold the same parts.
pub fn keys_eq(a: &Vec<Vec<u8>>, b: &Vec<Vec<u8>>) -> (r: bool)
    ensures
        r <==> a.deep_view() == b.deep_view(),
{
    proof {
        lemma_key_view(*a);
        lemma_key_view(*b);
    }
    if a.len() != b.len() {
        return false;
    }
    for i in 0..a.len()
        invariant
            a.len() == b.len(),
            a.deep_view().len() == a@.len(),
            b.deep_view().len() == b@.len(),
            forall|j: int| 0 <= j < a@.len() ==> a.deep_view()[j] == a@[j]@,
            forall|j: int| 0 <= j < b@.len() ==> b.deep_view()[j] == b@[j]@,
            forall|j: int| 0 <= j < i ==> a.deep_view()[j] == b.deep_view()[j],
    {
        if !bytes_eq(&a[i], &b[i]) {
            proof {
                assert(a.deep_view()[i as int] == a@[i as int]@);
                assert(b.deep_view()[i as int] == b@[i as int]@);
                assert(a.deep_view()[i as int] != b.deep_view()[i as int]);
            }
            return false;
        }
    }
    proof {
        assert(a.deep_view() =~= b.deep_view());
    }
    true
}

/// A composite key of one part.
pub fn k1(a: &Vec<u8>) -> (r: Vec<Vec<u8>>)
    ensures
        r.deep_view() == seq![a@],
{
    let mut r: Vec<Vec<u8>> = Vec::new();
    r.push(clone_bytes(a));
    proof {
        assert(r.deep_view() =~~= seq![a@]);
    }
    r
}

/// A composite key of two parts.
pub fn k2(a: &Vec<u8>, b: &Vec<u8>) -> (r: Vec<Vec<u8>>)
    ensures
        r.deep_view() == seq![a@, b@],
{
    let mut r: Vec<Vec<u8>> = Vec::new();
    r.push(clone_bytes(a));
    r.push(clone_bytes(b));
    proof {
        assert(r.deep_view() =~~= seq![a@, b@]);
    }
    r
}

/// A composite key of three parts.
pub fn k3(a: &Vec<u8>, b: &Vec<u8>, c: &Vec<u8>) -> (r: Vec<Vec<u8>>)
    ensures
        r.deep_view() == seq![a@, b@, c@],
{
    let mut r: Vec<Vec<u8>> = Vec::new();
    r.push(clone_bytes(a));
    r.push(clone_bytes(b));
    r.push(clone_bytes(c));
    proof {
        assert(r.deep_view() =~~= seq![a@, b@, c@]);
    }
    r
}

/// A composite key of four parts.
pub fn k4(a: &Vec<u8>, b: &Vec<u8>, c: &Vec<u8>, d: &Vec<u8>) -> (r: Vec<Vec<u8>>)
    ensures
        r.deep_view() == seq![a@, b@, c@, d@],
{
    let mut r: Vec<Vec<u8>> = Vec::new();
    r.push(clone_bytes(a));
    r.push(clone_bytes(b));
    r.push(clone_bytes(c));
    r.push(clone_bytes(d));
    proof {
        assert(r.deep_view() =~~= seq![a@, b@, c@, d@]);
    }
    r
}

/// A fresh copy of a composite key.
pub fn clone_key(v: &Vec<Vec<u8>>) -> (r: Vec<Vec<u8>>)
    ensures
        r.deep_view() == v.deep_view(),
{
    let mut r: Vec<Vec<u8>> = Vec::new();
    for i in 0..v.len()
        invariant
            r@.len() == i,
            forall|j: int| 0 <= j < i ==> r@[j]@ == v@[j]@,
    {
        r.push(clone_bytes(&v[i]));
    }
    proof {
        assert forall|j: int| 0 <= j < v@.len() implies r.deep_view()[j] == v.deep_view()[j] by {
            assert(r.deep_view()[j] == r@[j].deep_view());
            assert(v.deep_view()[j] == v@[j].deep_view());
            assert(r@[j].deep_view() =~= r@[j]@);
            assert(v@[j].deep_view() =~= v@[j]@);
        }
        assert(r.deep_view() =~= v.deep_view());
    }
    r
}

/// An association table from composite byte-string keys to values.
#[verifier::reject_recursive_types(V)]
pub struct Table<V> {
    entries: Vec<(Vec<Vec<u8>>, V)>,
}

impl<V: View> Table<V> {
    /// The key/value pairs, in insertion order.
    pub closed spec fn kvs(&self) -> Seq<(Seq<Seq<u8>>, V::V)> {
        self.entries@.map(|i: int, e: (Vec<Vec<u8>>, V)| (e.0.deep_view(), e.1@))
    }

    /// An empty table.
    pub fn new() -> (r: Table<V>)
        ensures
            r.kvs() == Seq::<(Seq<Seq<u8>>, V::V)>::empty(),
    {
        let r = Table { entries: Vec::new() };
        proof {
            assert(r.kvs() =~= Seq::<(Seq<Seq<u8>>, V::V)>::empty());
        }
        r
    }

    /// How many entries the table holds.
    pub fn len(&self) -> (r: usize)
        ensures
            r == self.kvs().len(),
    {
        self.entries.len()
    }

    /// The index of the entry stored under `key`, if any.
    pub fn find(&self, key: &Vec<Vec<u8>>) -> (r: Option<usize>)
        ensures
            match r {
                Some(i) => i < self.kvs().len() && self.kvs()[i as int].0 == key.deep_view()
                    && key_index(self.kvs(), key.deep_view()) == i,
                None => key_index(self.kvs(), key.deep_view()) == -1,
            },
    {
        let n = self.entries.len();
        for i in 0..n
            invariant
                n == self.kvs().len(),
                forall|j: int| 0 <= j < i ==> self.kvs()[j].0 != key.deep_view(),
        {
            if keys_eq(&self.entries[i].0, key) {
                proof {
                    lemma_key_index_first(self.kvs(), key.deep_view(), i as int);
                }
                return Some(i);
            }
        }
        proof {
            lemma_key_index_props(self.kvs(), key.deep_view());
        }
        None
    }

    /// Whether the table stores a value under `key`.
    pub fn contains(&self, key: &Vec<Vec<u8>>) -> (r: bool)
        ensures
            r == has_key(self.kvs(), key.deep_view()),
    {
        self.find(key).is_some()
    }

    /// The key of the entry at `i`.
    pub fn key_at(&self, i: usize) -> (r: &Vec<Vec<u8>>)
        requires
            i < self.kvs().len(),
        ensures
            r.deep_view() == self.kvs()[i as int].0,
    {
        &self.entries[i].0
    }

    /// The value of the entry at `i`.
    pub fn val_at(&self, i: usize) -> (r: &V)
        requires
            i < self.kvs().len(),
        ensures
            r@ == self.kvs()[i as int].1,
    {
        &self.entries[i].1
    }

    /// Stores `v` under `key`, replacing any previous value.
    pub fn upsert(&mut self, key: Vec<Vec<u8>>, v: V)
        ensures
            final(self).kvs() == kv_upsert(old(self).kvs(), key.deep_view(), v@),
    {
        let ghost pre = self.kvs();
        match self.find(&key) {
            Some(i) => {
                let _ = self.entries.remove(i);
                self.entries.insert(i, (key, v));
                proof {
                    lemma_key_index_props(pre, key.deep_view());
                    assert(self.kvs() =~= pre.update(i as int, (key.deep_view(), v@)));
                }
            },
            None => {
                self.entries.push((key, v));
                proof {
                    lemma_key_index_props(pre, key.deep_view());
                    assert(self.kvs() =~= pre.push((key.deep_view(), v@)));
                }
            },
        }
    }

    /// Removes and returns the entry at `i`.
    pub fn remove_at(&mut self, i: usize) -> (r: (Vec<Vec<u8>>, V))
        requires
            i < old(self).kvs().len(),
        ensures
            final(self).kvs() == old(self).kvs().remove(i as int),
            (r.0.deep_view(), r.1@) == old(self).kvs()[i as int],
    {
        let ghost pre = self.kvs();
        let e = self.entries.remove(i);
        proof {
            assert(self.kvs() =~= pre.remove(i as int));
        }
        e
    }

    /// Removes the entry stored under `key`, if any, and returns its value.
    pub fn remove(&mut self, key: &Vec<Vec<u8>>) -> (r: Option<V>)
        ensures
            final(self).kvs() == kv_remove(old(self).kvs(), key.deep_view()),
            match r {
                Some(v) => has_key(old(self).kvs(), key.deep_view()) && v@ == val_of(
                    old(self).kvs(),
                    key.deep_view(),
                ),
                None => !has_key(old(self).kvs(), key.deep_view()),
            },
    {
        match self.find(key) {
            Some(i) => {
                let (_, v) = self.remove_at(i);
                Some(v)
            },
            None => None,
        }
    }

    /// Removes every entry whose key's first two parts are `a` and `b`.
    pub fn clear_prefix2(&mut self, a: &Vec<u8>, b: &Vec<u8>)
        ensures
            final(self).kvs() == kv_clear2(old(self).kvs(), a@, b@),
    {
        let ghost pre = self.kvs();
        let ghost mut j: int = 0;
        let mut i: usize = 0;
        proof {
            assert(pre.subrange(0, 0) =~= Seq::<(Seq<Seq<u8>>, V::V)>::empty());
            assert(pre.subrange(0, pre.len() as int) =~= pre);
        }
        loop
            invariant
                0 <= j <= pre.len(),
                self.kvs() == kv_clear2(pre.subrange(0, j), a@, b@) + pre.subrange(
                    j,
                    pre.len() as int,
                ),
                i == kv_clear2(pre.subrange(0, j), a@, b@).len(),
            ensures
                j == pre.len(),
            decreases pre.len() - j,
        {
            if i >= self.len() {
                proof {
                    assert(self.kvs().len() == kv_clear2(pre.subrange(0, j), a@, b@).len() + (
                    pre.len() - j));
                    assert(j == pre.len());
                }
                break ;
            }
            proof {
                assert(j < pre.len());
            }
            let ghost prefix = pre.subrange(0, j);
            let ghost cleared = kv_clear2(prefix, a@, b@);
            let ghost cur = pre[j];
            proof {
                assert(self.kvs()[i as int] == (cleared + pre.subrange(j, pre.len() as int))[
                    i as int]);
                assert(self.kvs()[i as int] == cur);
                assert(pre.subrange(0, j + 1) =~= prefix + seq![cur]);
                lemma_kv_clear2_add(prefix, seq![cur], a@, b@);
                assert(seq![cur].drop_first() =~= Seq::<(Seq<Seq<u8>>, V::V)>::empty());
                assert(kv_clear2(seq![cur].drop_first(), a@, b@) =~= seq![cur].drop_first());
                assert(seq![cur][0] == cur);
                assert(seq![cur].len() == 1);
                if key_in_group2(cur.0, a@, b@) {
                    assert(kv_clear2(seq![cur], a@, b@) =~= Seq::<(Seq<Seq<u8>>, V::V)>::empty());
                } else {
                    assert(kv_clear2(seq![cur], a@, b@) =~= seq![cur]);
                }
            }
            let hit = {
                let key = self.key_at(i);
                proof {
                    lemma_key_view(*key);
                }
                key.len() >= 2 && bytes_eq(&key[0], a) && bytes_eq(&key[1], b)
            };
            proof {
                assert(hit == key_in_group2(cur.0, a@, b@));
            }
            if hit {
                let _ = self.remove_at(i);
                proof {
                    assert((cleared + pre.subrange(j, pre.len() as int)).remove(i as int) =~= cleared
                        + pre.subrange(j + 1, pre.len() as int));
                    assert(kv_clear2(pre.subrange(0, j + 1), a@, b@) =~= cleared);
                    j = j + 1;
                }
            } else {
                i = i + 1;
                proof {
                    assert(kv_clear2(pre.subrange(0, j + 1), a@, b@) =~= cleared.push(cur));
                    assert(cleared + pre.subrange(j, pre.len() as int) =~= cleared.push(cur)
                        + pre.subrange(j + 1, pre.len() as int));
                    j = j + 1;
                }
            }
        }
        proof {
            assert(j == pre.len());
            assert(pre.subrange(j, pre.len() as int) =~= Seq::<(Seq<Seq<u8>>, V::V)>::empty());
            assert(kv_clear2(pre.subrange(0, j), a@, b@) + pre.subrange(j, pre.len() as int) =~= kv_clear2(
                pre,
                a@,
                b@,
            ));
            assert(pre.subrange(0, pre.len() as int) =~= pre);
        }
    }
}

} // verus!
