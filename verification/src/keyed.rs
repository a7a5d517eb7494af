//! Sequences of pairs keyed by strings: lookups by what the key reads.

use vstd::prelude::*;

verus! {

/// The index of the first pair whose key reads `k`, or -1 when there is none.
pub open spec fn key_index<T>(s: Seq<(String, T)>, k: Seq<char>) -> int
    decreases s.len(),
{
    if s.len() == 0 {
        -1
    } else {
        let r = key_index(s.drop_last(), k);
        if r >= 0 {
            r
        } else if s.last().0@ == k {
            s.len() - 1
        } else {
            -1
        }
    }
}

/// No two pairs have keys that read the same.
pub open spec fn keys_unique<T>(s: Seq<(String, T)>) -> bool {
    forall|i: int, j: int| 0 <= i < j < s.len() ==> s[i].0@ != s[j].0@
}

/// Where `key_index` points, and that no earlier key reads `k`.
pub proof fn lemma_key_index<T>(s: Seq<(String, T)>, k: Seq<char>)
    ensures
        -1 <= key_index(s, k) < s.len(),
        key_index(s, k) >= 0 ==> s[key_index(s, k)].0@ == k,
        key_index(s, k) >= 0 ==> forall|j: int| 0 <= j < key_index(s, k) ==> s[j].0@ != k,
        key_index(s, k) < 0 ==> forall|j: int| 0 <= j < s.len() ==> s[j].0@ != k,
    decreases s.len(),
{
    if s.len() > 0 {
        let d = s.drop_last();
        lemma_key_index(d, k);
        assert forall|j: int| 0 <= j < d.len() implies d[j] == s[j] by {}
    }
}

/// A position whose key reads `k`, with no such key before it, is the key's index.
pub proof fn lemma_key_index_at<T>(s: Seq<(String, T)>, k: Seq<char>, i: int)
    requires
        0 <= i < s.len(),
        s[i].0@ == k,
        forall|j: int| 0 <= j < i ==> s[j].0@ != k,
    ensures
        key_index(s, k) == i,
{
    lemma_key_index(s, k);
}

/// Two sequences with the same keys in the same places find keys at the same index.
pub proof fn lemma_key_index_same_keys<T, U>(s: Seq<(String, T)>, t: Seq<(String, U)>, k: Seq<char>)
    requires
        s.len() == t.len(),
        forall|i: int| 0 <= i < s.len() ==> s[i].0 == t[i].0,
    ensures
        key_index(s, k) == key_index(t, k),
{
    lemma_key_index(s, k);
    lemma_key_index(t, k);
}

/// With keys that all read differently, a position whose key reads `k` is the key's index.
pub proof fn lemma_key_index_unique<T>(s: Seq<(String, T)>, k: Seq<char>, m: int)
    requires
        keys_unique(s),
        0 <= m < s.len(),
        s[m].0@ == k,
    ensures
        key_index(s, k) == m,
{
    lemma_key_index(s, k);
}

/// The index of the first pair of `pairs` whose key reads as `key` does.
pub fn find_key<T>(pairs: &Vec<(String, T)>, key: &String) -> (r: Option<usize>)
    ensures
        r matches Some(i) ==> i < pairs.len() && i as int == key_index(pairs@, key@),
        r is None ==> key_index(pairs@, key@) < 0,
{
    proof {
        lemma_key_index(pairs@, key@);
    }
    let mut i: usize = 0;
    while i < pairs.len()
        invariant
            i <= pairs.len(),
            forall|j: int| 0 <= j < i ==> pairs@[j].0@ != key@,
        decreases pairs.len() - i,
    {
        if pairs[i].0 == *key {
            proof {
                lemma_key_index_at(pairs@, key@, i as int);
            }
            return Some(i);
        }
        i = i + 1;
    }
    None
}

} // verus!
