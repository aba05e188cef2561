//! First-match lookup over association sequences.
//!
//! The registry and the nested per-status and per-class sub-records all keep
//! their entries as vectors of key/value pairs with pairwise-distinct keys.
//! This module gives the shared spec-level lookup over such a sequence and
//! the lemmas that connect a linear search, an in-place update, and a push
//! to that lookup.

use vstd::prelude::*;

verus! {

/// Index of the first pair whose key is `k`, or `-1` when no pair has it.
pub open spec fn find_idx<K, V>(s: Seq<(K, V)>, k: K) -> int
    decreases s.len(),
{
    if s.len() == 0 {
        -1
    } else if s[0].0 == k {
        0
    } else {
        let i = find_idx(s.drop_first(), k);
        if i < 0 {
            -1
        } else {
            i + 1
        }
    }
}

/// The keys of `s` are pairwise distinct.
pub open spec fn keys_distinct<K, V>(s: Seq<(K, V)>) -> bool {
    forall|i: int, j: int| 0 <= i < j < s.len() ==> s[i].0 != s[j].0
}

/// `find_idx` returns either `-1` with no key matching, or the first
/// matching position.
pub proof fn lemma_find_idx_props<K, V>(s: Seq<(K, V)>, k: K)
    ensures
        find_idx(s, k) == -1 ==> forall|j: int| 0 <= j < s.len() ==> s[j].0 != k,
        find_idx(s, k) != -1 ==> {
            let i = find_idx(s, k);
            &&& 0 <= i < s.len()
            &&& s[i].0 == k
            &&& forall|j: int| 0 <= j < i ==> s[j].0 != k
        },
    decreases s.len(),
{
    if s.len() == 0 {
    } else if s[0].0 == k {
    } else {
        lemma_find_idx_props(s.drop_first(), k);
        assert forall|j: int| 1 <= j < s.len() implies s[j] == s.drop_first()[j - 1] by {}
    }
}

/// A position that matches, with nothing matching before it, is what
/// `find_idx` returns.
pub proof fn lemma_find_idx_first<K, V>(s: Seq<(K, V)>, k: K, i: int)
    requires
        0 <= i < s.len(),
        s[i].0 == k,
        forall|j: int| 0 <= j < i ==> s[j].0 != k,
    ensures
        find_idx(s, k) == i,
    decreases s.len(),
{
    if s[0].0 == k {
        assert(i == 0);
    } else {
        assert(i >= 1);
        assert forall|j: int| 0 <= j < i - 1 implies s.drop_first()[j].0 != k by {
            assert(s.drop_first()[j] == s[j + 1]);
        }
        assert(s.drop_first()[i - 1] == s[i]);
        lemma_find_idx_first(s.drop_first(), k, i - 1);
    }
}

/// Two sequences with the same keys in the same order look up alike.
pub proof fn lemma_find_idx_same_keys<K, V>(s: Seq<(K, V)>, t: Seq<(K, V)>, k: K)
    requires
        s.len() == t.len(),
        forall|j: int| 0 <= j < s.len() ==> s[j].0 == t[j].0,
    ensures
        find_idx(s, k) == find_idx(t, k),
{
    lemma_find_idx_props(s, k);
    lemma_find_idx_props(t, k);
    let i = find_idx(s, k);
    let j = find_idx(t, k);
    if i != -1 {
        lemma_find_idx_first(t, k, i);
    } else if j != -1 {
        assert(s[j].0 == k);
    }
}

/// Pushing a pair with a fresh key: lookups of other keys are unchanged and
/// the new key is found at the end.
pub proof fn lemma_find_idx_push<K, V>(s: Seq<(K, V)>, p: (K, V), k: K)
    requires
        find_idx(s, p.0) == -1,
    ensures
        find_idx(s.push(p), p.0) == s.len(),
        k != p.0 ==> find_idx(s.push(p), k) == find_idx(s, k),
{
    lemma_find_idx_props(s, p.0);
    lemma_find_idx_first(s.push(p), p.0, s.len() as int);
    if k != p.0 {
        lemma_find_idx_props(s, k);
        let i = find_idx(s, k);
        if i != -1 {
            lemma_find_idx_first(s.push(p), k, i);
        } else {
            lemma_find_idx_props(s.push(p), k);
            let j = find_idx(s.push(p), k);
            if j != -1 {
                assert(s.push(p)[j].0 == k);
                assert(j == s.len() || s[j].0 == k);
            }
        }
    }
}

/// Updating a pair in place without changing its key leaves every lookup
/// unchanged.
pub proof fn lemma_find_idx_update<K, V>(s: Seq<(K, V)>, i: int, p: (K, V), k: K)
    requires
        0 <= i < s.len(),
        s[i].0 == p.0,
    ensures
        find_idx(s.update(i, p), k) == find_idx(s, k),
{
    lemma_find_idx_same_keys(s, s.update(i, p), k);
}

} // verus!
