//! Sequences used as maps: a lookup finds the first element whose key matches.

use vstd::prelude::*;

use crate::text::str_eq;

verus! {

/// `i` is the position of the first occurrence of `k` in `ks`.
pub open spec fn is_first<K>(ks: Seq<K>, k: K, i: int) -> bool {
    &&& 0 <= i < ks.len()
    &&& ks[i] == k
    &&& forall|j: int| 0 <= j < i ==> ks[j] != k
}

/// The position of the first occurrence of `k` in `ks`, if any.
pub open spec fn index_of_first<K>(ks: Seq<K>, k: K) -> Option<int> {
    if exists|i: int| is_first(ks, k, i) {
        Some(choose|i: int| is_first(ks, k, i))
    } else {
        None
    }
}

/// The views of the keys of a sequence of `(String, V)` pairs.
pub open spec fn key_views<V>(s: Seq<(String, V)>) -> Seq<Seq<char>> {
    s.map_values(|p: (String, V)| p.0@)
}

pub proof fn lemma_first_unique<K>(ks: Seq<K>, k: K, i: int, j: int)
    requires
        is_first(ks, k, i),
        is_first(ks, k, j),
    ensures
        i == j,
{
}

/// Where the first occurrence is known, `index_of_first` names it.
pub proof fn lemma_index_of_first_at<K>(ks: Seq<K>, k: K, i: int)
    requires
        is_first(ks, k, i),
    ensures
        index_of_first(ks, k) == Some(i),
{
    let c = choose|c: int| is_first(ks, k, c);
    lemma_first_unique(ks, k, c, i);
}

proof fn lemma_first_at_or_below<K>(ks: Seq<K>, k: K, w: int)
    requires
        0 <= w < ks.len(),
        ks[w] == k,
    ensures
        exists|i: int| is_first(ks, k, i),
    decreases w,
{
    if forall|j: int| 0 <= j < w ==> ks[j] != k {
        assert(is_first(ks, k, w));
    } else {
        let j = choose|j: int| 0 <= j < w && ks[j] == k;
        lemma_first_at_or_below(ks, k, j);
    }
}

/// `index_of_first` is `None` exactly when `k` does not occur.
pub proof fn lemma_index_of_first_spec<K>(ks: Seq<K>, k: K)
    ensures
        index_of_first(ks, k) is None <==> !ks.contains(k),
        index_of_first(ks, k) matches Some(i) ==> is_first(ks, k, i),
{
    if ks.contains(k) {
        let w = choose|w: int| 0 <= w < ks.len() && ks[w] == k;
        lemma_first_at_or_below(ks, k, w);
    }
}

/// Appending `x` to a sequence that lacks `k` puts the first `k` at the end
/// when `x` is `k`, and leaves it absent otherwise; a present `k` keeps its
/// first position.
pub proof fn lemma_index_of_first_push<K>(ks: Seq<K>, x: K, k: K)
    ensures
        index_of_first(ks.push(x), k) == (match index_of_first(ks, k) {
            Some(i) => Some(i),
            None => if x == k {
                Some(ks.len() as int)
            } else {
                None
            },
        }),
{
    lemma_index_of_first_spec(ks, k);
    lemma_index_of_first_spec(ks.push(x), k);
    match index_of_first(ks, k) {
        Some(i) => {
            assert(is_first(ks.push(x), k, i));
            lemma_index_of_first_at(ks.push(x), k, i);
        },
        None => {
            if x == k {
                assert(is_first(ks.push(x), k, ks.len() as int));
                lemma_index_of_first_at(ks.push(x), k, ks.len() as int);
            } else {
                assert(!ks.push(x).contains(k)) by {
                    if ks.push(x).contains(k) {
                        let w = choose|w: int| 0 <= w < ks.push(x).len() && ks.push(x)[w] == k;
                        assert(ks[w] == k);
                    }
                }
            }
        },
    }
}

/// An element occurs after a push exactly when it occurred before or is the
/// one pushed.
pub proof fn lemma_contains_push<K>(s: Seq<K>, x: K, k: K)
    ensures
        s.push(x).contains(k) <==> (s.contains(k) || x == k),
{
    if s.contains(k) {
        let w = choose|w: int| 0 <= w < s.len() && s[w] == k;
        assert(s.push(x)[w] == k);
    }
    if x == k {
        assert(s.push(x)[s.len() as int] == k);
    }
    if s.push(x).contains(k) && x != k {
        let w = choose|w: int| 0 <= w < s.push(x).len() && s.push(x)[w] == k;
        assert(s[w] == k);
    }
}

/// The position of the first pair whose key is `k`.
pub fn find_key<V>(s: &Vec<(String, V)>, k: &str) -> (r: Option<usize>)
    ensures
        match r {
            Some(i) => index_of_first(key_views(s@), k@) == Some(i as int) && i < s@.len(),
            None => index_of_first(key_views(s@), k@) is None,
        },
{
    let ghost ks = key_views(s@);
    let mut i: usize = 0;
    while i < s.len()
        invariant
            0 <= i <= s.len(),
            ks == key_views(s@),
            forall|j: int| 0 <= j < i ==> ks[j] != k@,
        decreases s.len() - i,
    {
        if str_eq(s[i].0.as_str(), k) {
            proof {
                assert(is_first(ks, k@, i as int));
                lemma_index_of_first_at(ks, k@, i as int);
            }
            return Some(i);
        }
        i = i + 1;
    }
    proof {
        lemma_index_of_first_spec(ks, k@);
        if ks.contains(k@) {
            let w = choose|w: int| 0 <= w < ks.len() && ks[w] == k@;
            assert(ks[w] != k@);
        }
    }
    None
}

/// Whether no key occurs twice.
pub fn keys_distinct<V>(s: &Vec<(String, V)>) -> (r: bool)
    ensures
        r == key_views(s@).no_duplicates(),
{
    let ghost ks = key_views(s@);
    let mut i: usize = 0;
    while i < s.len()
        invariant
            0 <= i <= s.len(),
            ks == key_views(s@),
            forall|a: int, b: int| 0 <= a < b < i ==> ks[a] != ks[b],
        decreases s.len() - i,
    {
        let mut j: usize = 0;
        while j < i
            invariant
                0 <= j <= i < s.len(),
                ks == key_views(s@),
                forall|a: int, b: int| 0 <= a < b < i ==> ks[a] != ks[b],
                forall|a: int| 0 <= a < j ==> ks[a] != ks[i as int],
            decreases i - j,
        {
            if str_eq(s[j].0.as_str(), s[i].0.as_str()) {
                assert(ks[j as int] == ks[i as int]);
                return false;
            }
            j = j + 1;
        }
        i = i + 1;
    }
    true
}

} // verus!
