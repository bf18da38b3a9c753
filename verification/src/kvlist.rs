//! The mathematical model shared by the broker's in-memory indices: an
//! association list (a sequence of key/value pairs) with unique keys.  The
//! caches state their contracts over `lookup`, `has_key` and `key_count`,
//! and prove them with the lemmas here.

use vstd::prelude::*;

verus! {

/// First value bound to `k` in `s`, if any.
pub open spec fn lookup<K, V>(s: Seq<(K, V)>, k: K) -> Option<V>
    decreases s.len(),
{
    if s.len() == 0 {
        None
    } else if s[0].0 == k {
        Some(s[0].1)
    } else {
        lookup(s.drop_first(), k)
    }
}

/// Whether `s` binds the key `k`.
pub open spec fn has_key<K, V>(s: Seq<(K, V)>, k: K) -> bool {
    lookup(s, k) is Some
}

/// No key occurs twice.
pub open spec fn uniq_keys<K, V>(s: Seq<(K, V)>) -> bool {
    forall|i: int, j: int| 0 <= i < j < s.len() ==> #[trigger] s[i].0 != #[trigger] s[j].0
}

/// How many entries of `s` carry the key `k`.
pub open spec fn key_count<K, V>(s: Seq<(K, V)>, k: K) -> nat
    decreases s.len(),
{
    if s.len() == 0 {
        0
    } else {
        (if s[0].0 == k {
            1nat
        } else {
            0nat
        }) + key_count(s.drop_first(), k)
    }
}

/// `lookup` is `None` exactly when no entry carries the key.
pub proof fn lemma_lookup_absent<K, V>(s: Seq<(K, V)>, k: K)
    ensures
        (lookup(s, k) is None) <==> (forall|i: int| 0 <= i < s.len() ==> #[trigger] s[i].0 != k),
    decreases s.len(),
{
    if s.len() > 0 {
        lemma_lookup_absent(s.drop_first(), k);
        assert(forall|j: int|
            0 <= j < s.drop_first().len() ==> #[trigger] s.drop_first()[j] == s[j + 1]);
        if s[0].0 != k && lookup(s.drop_first(), k) is None {
            assert(forall|i: int|
                1 <= i < s.len() ==> #[trigger] s[i].0 == s.drop_first()[i - 1].0);
        }
    }
}

/// When `lookup` finds a value, some entry carries exactly that binding.
pub proof fn lemma_lookup_present<K, V>(s: Seq<(K, V)>, k: K)
    requires
        lookup(s, k) is Some,
    ensures
        exists|i: int|
            0 <= i < s.len() && #[trigger] s[i] == (k, lookup(s, k)->Some_0),
    decreases s.len(),
{
    if s[0].0 == k {
        assert(s[0] == (k, lookup(s, k)->Some_0));
    } else {
        lemma_lookup_present(s.drop_first(), k);
        let i = choose|i: int|
            0 <= i < s.drop_first().len() && #[trigger] s.drop_first()[i] == (
                k,
                lookup(s.drop_first(), k)->Some_0,
            );
        assert(s[i + 1] == s.drop_first()[i]);
    }
}

/// Looking a key up after appending one entry.
pub proof fn lemma_lookup_push<K, V>(s: Seq<(K, V)>, p: (K, V), k: K)
    ensures
        lookup(s.push(p), k) == (if has_key(s, k) {
            lookup(s, k)
        } else if p.0 == k {
            Some(p.1)
        } else {
            None::<V>
        }),
    decreases s.len(),
{
    if s.len() == 0 {
        assert(s.push(p)[0] == p);
        assert(s.push(p).drop_first() =~= s);
    } else {
        assert(s.push(p)[0] == s[0]);
        assert(s.push(p).drop_first() =~= s.drop_first().push(p));
        lemma_lookup_push(s.drop_first(), p, k);
    }
}

/// Appending an entry with a fresh key keeps the keys unique.
pub proof fn lemma_uniq_push<K, V>(s: Seq<(K, V)>, p: (K, V))
    requires
        uniq_keys(s),
        !has_key(s, p.0),
    ensures
        uniq_keys(s.push(p)),
{
    lemma_lookup_absent(s, p.0);
    assert(forall|i: int| 0 <= i < s.len() ==> #[trigger] s.push(p)[i] == s[i]);
    assert(s.push(p)[s.len() as int] == p);
}

/// The tail of a unique-key list has unique keys.
pub proof fn lemma_uniq_drop_first<K, V>(s: Seq<(K, V)>)
    requires
        uniq_keys(s),
        s.len() > 0,
    ensures
        uniq_keys(s.drop_first()),
{
    assert(forall|j: int|
        0 <= j < s.drop_first().len() ==> #[trigger] s.drop_first()[j] == s[j + 1]);
}

/// Removing one entry keeps the keys unique.
pub proof fn lemma_uniq_remove<K, V>(s: Seq<(K, V)>, i: int)
    requires
        uniq_keys(s),
        0 <= i < s.len(),
    ensures
        uniq_keys(s.remove(i)),
{
    assert(forall|j: int| 0 <= j < i ==> #[trigger] s.remove(i)[j] == s[j]);
    assert(forall|j: int|
        i <= j < s.len() - 1 ==> #[trigger] s.remove(i)[j] == s[j + 1]);
}

/// Looking a key up after removing the entry at index `i`.
pub proof fn lemma_lookup_remove_at<K, V>(s: Seq<(K, V)>, i: int, k: K)
    requires
        uniq_keys(s),
        0 <= i < s.len(),
    ensures
        lookup(s.remove(i), k) == (if s[i].0 == k {
            None::<V>
        } else {
            lookup(s, k)
        }),
    decreases s.len(),
{
    if i == 0 {
        assert(s.remove(0) =~= s.drop_first());
        if s[0].0 == k {
            lemma_uniq_drop_first(s);
            assert(forall|j: int|
                0 <= j < s.drop_first().len() ==> #[trigger] s.drop_first()[j] == s[j + 1]);
            lemma_lookup_absent(s.drop_first(), k);
        }
    } else {
        assert(s.remove(i)[0] == s[0]);
        assert(s.remove(i).drop_first() =~= s.drop_first().remove(i - 1));
        lemma_uniq_drop_first(s);
        assert(s.drop_first()[i - 1] == s[i]);
        lemma_lookup_remove_at(s.drop_first(), i - 1, k);
        if s[0].0 == k {
            assert(s[i].0 != k);
        }
    }
}

/// With unique keys, a present key occurs exactly once and an absent key not
/// at all.
pub proof fn lemma_key_count<K, V>(s: Seq<(K, V)>, k: K)
    requires
        uniq_keys(s),
    ensures
        key_count(s, k) == (if has_key(s, k) {
            1nat
        } else {
            0nat
        }),
    decreases s.len(),
{
    if s.len() > 0 {
        lemma_uniq_drop_first(s);
        lemma_key_count(s.drop_first(), k);
        if s[0].0 == k {
            assert(forall|j: int|
                0 <= j < s.drop_first().len() ==> #[trigger] s.drop_first()[j] == s[j + 1]);
            lemma_lookup_absent(s.drop_first(), k);
        }
    }
}

/// Every entry of a unique-key list is what `lookup` finds at its own key.
pub proof fn lemma_lookup_at<K, V>(s: Seq<(K, V)>, i: int)
    requires
        uniq_keys(s),
        0 <= i < s.len(),
    ensures
        lookup(s, s[i].0) == Some(s[i].1),
    decreases s.len(),
{
    if i == 0 {
    } else {
        assert(s[0].0 != s[i].0);
        lemma_uniq_drop_first(s);
        assert(s.drop_first()[i - 1] == s[i]);
        lemma_lookup_at(s.drop_first(), i - 1);
    }
}

/// One step of a left-to-right scan: the remainder of the list from index
/// `i` binds `k` as its head does, or as the remainder from `i + 1` does.
pub proof fn lemma_lookup_skip_step<K, V>(s: Seq<(K, V)>, i: int, k: K)
    requires
        0 <= i < s.len(),
    ensures
        lookup(s.skip(i), k) == (if s[i].0 == k {
            Some(s[i].1)
        } else {
            lookup(s.skip(i + 1), k)
        }),
{
    assert(s.skip(i)[0] == s[i]);
    assert(s.skip(i).drop_first() =~= s.skip(i + 1));
}

} // verus!
