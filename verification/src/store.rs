//! A name-keyed store, modelled as a sequence of records with pairwise
//! distinct keys. Both vault stores — the metadata document and the set of
//! envelope files — are maps from a secret's name to one record, and both
//! are held this way; their contracts speak through [`lookup_key`], the
//! name-to-record lookup such a sequence denotes.

use vstd::prelude::*;

verus! {

/// A record filed under a textual key.
pub trait Keyed {
    /// The key the record is filed under.
    spec fn key(&self) -> Seq<char>;
}

/// No two records share a key.
pub open spec fn unique_keys<T: Keyed>(s: Seq<T>) -> bool {
    forall|i: int, j: int| 0 <= i < j < s.len() ==> #[trigger] s[i].key() != #[trigger] s[j].key()
}

/// Some record carries this key.
pub open spec fn has_key<T: Keyed>(s: Seq<T>, k: Seq<char>) -> bool {
    exists|i: int| 0 <= i < s.len() && #[trigger] s[i].key() == k
}

/// The position of the record carrying this key (meaningful when `has_key`
/// holds and keys are unique).
pub open spec fn index_of_key<T: Keyed>(s: Seq<T>, k: Seq<char>) -> int {
    choose|i: int| 0 <= i < s.len() && #[trigger] s[i].key() == k
}

/// The record this key maps to, if any: the lookup the sequence denotes.
pub open spec fn lookup_key<T: Keyed>(s: Seq<T>, k: Seq<char>) -> Option<T> {
    if has_key(s, k) {
        Some(s[index_of_key(s, k)])
    } else {
        None
    }
}

/// With unique keys, a record's position determines the lookup.
pub proof fn lemma_lookup_at<T: Keyed>(s: Seq<T>, i: int)
    requires
        unique_keys(s),
        0 <= i < s.len(),
    ensures
        has_key(s, s[i].key()),
        index_of_key(s, s[i].key()) == i,
        lookup_key(s, s[i].key()) == Some(s[i]),
{
    assert(has_key(s, s[i].key()));
    let j = index_of_key(s, s[i].key());
    if j != i {
        assert(false);
    }
}

/// Replacing a record by one of the same key keeps keys unique, rebinds that
/// key, and leaves every other key's lookup unchanged.
pub proof fn lemma_update_lookup<T: Keyed>(s: Seq<T>, i: int, v: T)
    requires
        unique_keys(s),
        0 <= i < s.len(),
        v.key() == s[i].key(),
    ensures
        unique_keys(s.update(i, v)),
        lookup_key(s.update(i, v), v.key()) == Some(v),
        forall|n: Seq<char>| n != v.key() ==> lookup_key(s.update(i, v), n) == lookup_key(s, n),
{
    let t = s.update(i, v);
    assert(unique_keys(t));
    lemma_lookup_at(t, i);
    assert forall|n: Seq<char>| n != v.key() implies lookup_key(t, n) == lookup_key(s, n) by {
        if has_key(s, n) {
            let j = index_of_key(s, n);
            assert(t[j].key() == n);
            lemma_lookup_at(s, j);
            lemma_lookup_at(t, j);
        }
        if has_key(t, n) {
            let j = index_of_key(t, n);
            assert(s[j].key() == n);
            lemma_lookup_at(s, j);
            lemma_lookup_at(t, j);
        }
    }
}

/// Appending a record under a fresh key keeps keys unique, binds the new
/// key, and leaves every other key's lookup unchanged.
pub proof fn lemma_push_lookup<T: Keyed>(s: Seq<T>, v: T)
    requires
        unique_keys(s),
        !has_key(s, v.key()),
    ensures
        unique_keys(s.push(v)),
        lookup_key(s.push(v), v.key()) == Some(v),
        forall|n: Seq<char>| n != v.key() ==> lookup_key(s.push(v), n) == lookup_key(s, n),
{
    let t = s.push(v);
    assert forall|i: int, j: int| 0 <= i < j < t.len() implies t[i].key() != t[j].key() by {
        if j < s.len() {
        } else {
            assert(t[i] == s[i]);
            if s[i].key() == v.key() {
                assert(has_key(s, v.key()));
            }
        }
    }
    lemma_lookup_at(t, s.len() as int);
    assert forall|n: Seq<char>| n != v.key() implies lookup_key(t, n) == lookup_key(s, n) by {
        if has_key(s, n) {
            let j = index_of_key(s, n);
            assert(t[j].key() == n);
            lemma_lookup_at(s, j);
            lemma_lookup_at(t, j);
        }
        if has_key(t, n) {
            let j = index_of_key(t, n);
            assert(j < s.len());
            assert(s[j].key() == n);
            lemma_lookup_at(s, j);
            lemma_lookup_at(t, j);
        }
    }
}

/// Removing the record at a position keeps keys unique, unbinds its key, and
/// leaves every other key's lookup unchanged.
pub proof fn lemma_remove_lookup<T: Keyed>(s: Seq<T>, i: int)
    requires
        unique_keys(s),
        0 <= i < s.len(),
    ensures
        unique_keys(s.remove(i)),
        lookup_key(s.remove(i), s[i].key()) is None,
        forall|n: Seq<char>| n != s[i].key() ==> lookup_key(s.remove(i), n) == lookup_key(s, n),
{
    let t = s.remove(i);
    assert forall|a: int, b: int| 0 <= a < b < t.len() implies t[a].key() != t[b].key() by {
        let a0 = if a < i {
            a
        } else {
            a + 1
        };
        let b0 = if b < i {
            b
        } else {
            b + 1
        };
        assert(t[a] == s[a0] && t[b] == s[b0]);
    }
    if has_key(t, s[i].key()) {
        let j = index_of_key(t, s[i].key());
        let j0 = if j < i {
            j
        } else {
            j + 1
        };
        assert(t[j] == s[j0]);
        assert(s[j0].key() == s[i].key() && j0 != i);
        assert(false);
    }
    assert forall|n: Seq<char>| n != s[i].key() implies lookup_key(t, n) == lookup_key(s, n) by {
        if has_key(s, n) {
            let j = index_of_key(s, n);
            assert(s[j].key() == n);
            let j1 = if j < i {
                j
            } else {
                j - 1
            };
            assert(t[j1] == s[j]);
            lemma_lookup_at(s, j);
            lemma_lookup_at(t, j1);
        }
        if has_key(t, n) {
            let j = index_of_key(t, n);
            let j0 = if j < i {
                j
            } else {
                j + 1
            };
            assert(t[j] == s[j0]);
            lemma_lookup_at(s, j0);
            lemma_lookup_at(t, j);
        }
    }
}

} // verus!
