//! A small theory of association sequences with unique keys, used for the
//! permission, channel-binding and allocation tables.

use vstd::prelude::*;

verus! {

/// Every key occurs at most once.
pub open spec fn keys_unique<K, V>(s: Seq<(K, V)>) -> bool {
    forall|i: int, j: int| 0 <= i < j < s.len() ==> s[i].0 != s[j].0
}

pub open spec fn has_key<K, V>(s: Seq<(K, V)>, k: K) -> bool {
    exists|i: int| 0 <= i < s.len() && s[i].0 == k
}

pub open spec fn key_idx<K, V>(s: Seq<(K, V)>, k: K) -> int {
    choose|i: int| 0 <= i < s.len() && s[i].0 == k
}

/// The value stored under key `k`, if any.
pub open spec fn value_of<K, V>(s: Seq<(K, V)>, k: K) -> Option<V> {
    if has_key(s, k) {
        Some(s[key_idx(s, k)].1)
    } else {
        None
    }
}

/// Removing the entry at `i` removes exactly its key from the association.
pub proof fn lemma_remove_key<K, V>(s: Seq<(K, V)>, i: int)
    requires
        keys_unique(s),
        0 <= i < s.len(),
    ensures
        keys_unique(s.remove(i)),
        value_of(s.remove(i), s[i].0) is None,
        forall|k: K| k != s[i].0 ==> value_of(s.remove(i), k) == value_of(s, k),
{
    let r = s.remove(i);
    s.remove_ensures(i);
    assert(forall|j: int| 0 <= j < i ==> r[j] == s[j]);
    assert(forall|j: int| i <= j < r.len() ==> r[j] == s[j + 1]);
    assert forall|k: K| k != s[i].0 implies value_of(r, k) == value_of(s, k) by {
        if has_key(s, k) {
            let a = key_idx(s, k);
            assert(0 <= a < s.len() && s[a].0 == k);
            assert(a != i);
            if a < i {
                assert(r[a] == s[a]);
            } else {
                assert(r[a - 1] == s[a]);
            }
            assert(has_key(r, k));
            let b = key_idx(r, k);
            assert(0 <= b < r.len() && r[b].0 == k);
            if b < i {
                assert(r[b] == s[b]);
                assert(s[b].1 == s[a].1);
            } else {
                assert(r[b] == s[b + 1]);
                assert(s[b + 1].1 == s[a].1);
            }
        } else {
            if has_key(r, k) {
                let b = key_idx(r, k);
                if b < i {
                    assert(s[b].0 == k);
                } else {
                    assert(s[b + 1].0 == k);
                }
            }
        }
    }
    if has_key(r, s[i].0) {
        let b = key_idx(r, s[i].0);
        if b < i {
            assert(s[b].0 == s[i].0);
        } else {
            assert(s[b + 1].0 == s[i].0);
        }
    }
}

/// Pushing an entry with a fresh key adds exactly that key.
pub proof fn lemma_push_key<K, V>(s: Seq<(K, V)>, kv: (K, V))
    requires
        keys_unique(s),
        !has_key(s, kv.0),
    ensures
        keys_unique(s.push(kv)),
        value_of(s.push(kv), kv.0) == Some(kv.1),
        forall|k: K| k != kv.0 ==> value_of(s.push(kv), k) == value_of(s, k),
{
    let r = s.push(kv);
    assert(forall|j: int| 0 <= j < s.len() ==> r[j] == s[j]);
    assert(r[s.len() as int] == kv);
    assert(has_key(r, kv.0));
    let a = key_idx(r, kv.0);
    assert(0 <= a < r.len() && r[a].0 == kv.0);
    assert(a == s.len());
    assert forall|k: K| k != kv.0 implies value_of(r, k) == value_of(s, k) by {
        if has_key(s, k) {
            let j = key_idx(s, k);
            assert(r[j] == s[j]);
            assert(has_key(r, k));
            let b = key_idx(r, k);
            assert(b != s.len());
            assert(r[b] == s[b]);
        } else {
            if has_key(r, k) {
                let b = key_idx(r, k);
                assert(b != s.len());
                assert(s[b].0 == k);
            }
        }
    }
}

} // verus!
