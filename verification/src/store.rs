//! Keyed in-memory stores used by the caches: vectors of key/value pairs
//! with unique keys, offering find, upsert and remove.  One family per key
//! shape; contracts are stated over the `kvlist` model.

use vstd::prelude::*;

use crate::kvlist::{
    has_key, lemma_lookup_push, lemma_lookup_remove_at, lemma_lookup_skip_step, lemma_uniq_push,
    lemma_uniq_remove, lookup, uniq_keys,
};

verus! {

// ---------------------------------------------------------------- u64 keys
/// Index of the entry keyed `k`, if any.
pub fn ukv_find<V>(v: &Vec<(u64, V)>, k: u64) -> (r: Option<usize>)
    ensures
        match r {
            Some(i) => i < v@.len() && v@[i as int].0 == k && lookup(v@, k) == Some(
                v@[i as int].1,
            ),
            None => !has_key(v@, k),
        },
{
    proof {
        assert(v@.skip(0) =~= v@);
    }
    let mut i: usize = 0;
    while i < v.len()
        invariant
            i <= v@.len(),
            lookup(v@, k) == lookup(v@.skip(i as int), k),
        decreases v@.len() - i,
    {
        proof {
            lemma_lookup_skip_step(v@, i as int, k);
        }
        if v[i].0 == k {
            return Some(i);
        }
        i = i + 1;
    }
    proof {
        assert(v@.skip(v@.len() as int) =~= Seq::<(u64, V)>::empty());
    }
    None
}

/// Removes the entry keyed `k` if present; idempotent.
pub fn ukv_remove<V>(v: &mut Vec<(u64, V)>, k: u64)
    requires
        uniq_keys(old(v)@),
    ensures
        uniq_keys(final(v)@),
        !has_key(final(v)@, k),
        forall|k2: u64| k2 != k ==> #[trigger] lookup(final(v)@, k2) == lookup(old(v)@, k2),
        final(v)@.len() <= old(v)@.len(),
{
    let found = ukv_find(v, k);
    match found {
        None => {
            proof {
                crate::kvlist::lemma_lookup_absent(v@, k);
            }
        },
        Some(i) => {
            v.remove(i);
            proof {
                let pre = old(v)@;
                assert(v@ == pre.remove(i as int));
                lemma_uniq_remove(pre, i as int);
                assert forall|k2: u64| true implies #[trigger] lookup(pre.remove(i as int), k2)
                    == (if pre[i as int].0 == k2 {
                    None::<V>
                } else {
                    lookup(pre, k2)
                }) by {
                    lemma_lookup_remove_at(pre, i as int, k2);
                }
            }
        },
    }
}

/// Binds `k` to `val`, replacing any earlier binding.
pub fn ukv_insert<V>(v: &mut Vec<(u64, V)>, k: u64, val: V)
    requires
        uniq_keys(old(v)@),
    ensures
        uniq_keys(final(v)@),
        lookup(final(v)@, k) == Some(val),
        forall|k2: u64| k2 != k ==> #[trigger] lookup(final(v)@, k2) == lookup(old(v)@, k2),
{
    ukv_remove(v, k);
    let ghost mid = v@;
    v.push((k, val));
    proof {
        lemma_uniq_push(mid, (k, val));
        lemma_lookup_push(mid, (k, val), k);
        assert forall|k2: u64| k2 != k implies #[trigger] lookup(v@, k2) == lookup(mid, k2) by {
            lemma_lookup_push(mid, (k, val), k2);
        }
    }
}

// ------------------------------------------------------------- String keys
/// View of a string-keyed store: keys become character sequences.
pub open spec fn sv<V>(s: Seq<(String, V)>) -> Seq<(Seq<char>, V)> {
    s.map_values(|p: (String, V)| (p.0@, p.1))
}

/// Index of the entry keyed `k`, if any.
pub fn skv_find<V>(v: &Vec<(String, V)>, k: &String) -> (r: Option<usize>)
    ensures
        match r {
            Some(i) => i < v@.len() && v@[i as int].0@ == k@ && lookup(sv(v@), k@) == Some(
                v@[i as int].1,
            ),
            None => !has_key(sv(v@), k@),
        },
{
    proof {
        assert(sv(v@).skip(0) =~= sv(v@));
    }
    let mut i: usize = 0;
    while i < v.len()
        invariant
            i <= v@.len(),
            sv(v@).len() == v@.len(),
            lookup(sv(v@), k@) == lookup(sv(v@).skip(i as int), k@),
        decreases v@.len() - i,
    {
        proof {
            assert(sv(v@)[i as int] == (v@[i as int].0@, v@[i as int].1));
            lemma_lookup_skip_step(sv(v@), i as int, k@);
        }
        if v[i].0 == *k {
            return Some(i);
        }
        i = i + 1;
    }
    proof {
        assert(sv(v@).skip(v@.len() as int) =~= Seq::<(Seq<char>, V)>::empty());
    }
    None
}

/// Removes the entry keyed `k` if present; idempotent.
pub fn skv_remove<V>(v: &mut Vec<(String, V)>, k: &String)
    requires
        uniq_keys(sv(old(v)@)),
    ensures
        uniq_keys(sv(final(v)@)),
        !has_key(sv(final(v)@), k@),
        forall|k2: Seq<char>|
            k2 != k@ ==> #[trigger] lookup(sv(final(v)@), k2) == lookup(sv(old(v)@), k2),
        final(v)@.len() <= old(v)@.len(),
{
    let found = skv_find(v, k);
    match found {
        None => {
            proof {
                crate::kvlist::lemma_lookup_absent(sv(v@), k@);
            }
        },
        Some(i) => {
            v.remove(i);
            proof {
                let pre = sv(old(v)@);
                assert(pre.len() == old(v)@.len());
                assert(sv(v@) =~= pre.remove(i as int));
                lemma_uniq_remove(pre, i as int);
                assert(pre[i as int].0 == k@);
                assert forall|k2: Seq<char>| true implies #[trigger] lookup(
                    pre.remove(i as int),
                    k2,
                ) == (if pre[i as int].0 == k2 {
                    None::<V>
                } else {
                    lookup(pre, k2)
                }) by {
                    lemma_lookup_remove_at(pre, i as int, k2);
                }
            }
        },
    }
}

/// Removes and returns the entry keyed `k`, if any.
pub fn skv_take<V>(v: &mut Vec<(String, V)>, k: &String) -> (r: Option<(String, V)>)
    requires
        uniq_keys(sv(old(v)@)),
    ensures
        uniq_keys(sv(final(v)@)),
        !has_key(sv(final(v)@), k@),
        forall|k2: Seq<char>|
            k2 != k@ ==> #[trigger] lookup(sv(final(v)@), k2) == lookup(sv(old(v)@), k2),
        match r {
            Some(p) => p.0@ == k@ && lookup(sv(old(v)@), k@) == Some(p.1),
            None => !has_key(sv(old(v)@), k@) && *final(v) == *old(v),
        },
{
    let found = skv_find(v, k);
    match found {
        None => {
            proof {
                crate::kvlist::lemma_lookup_absent(sv(v@), k@);
            }
            None
        },
        Some(i) => {
            let p = v.remove(i);
            proof {
                let pre = sv(old(v)@);
                assert(pre.len() == old(v)@.len());
                assert(sv(v@) =~= pre.remove(i as int));
                lemma_uniq_remove(pre, i as int);
                assert(pre[i as int].0 == k@);
                assert forall|k2: Seq<char>| true implies #[trigger] lookup(
                    pre.remove(i as int),
                    k2,
                ) == (if pre[i as int].0 == k2 {
                    None::<V>
                } else {
                    lookup(pre, k2)
                }) by {
                    lemma_lookup_remove_at(pre, i as int, k2);
                }
            }
            Some(p)
        },
    }
}

/// Binds `k` to `val`, replacing any earlier binding.
pub fn skv_insert<V>(v: &mut Vec<(String, V)>, k: &String, val: V)
    requires
        uniq_keys(sv(old(v)@)),
    ensures
        uniq_keys(sv(final(v)@)),
        lookup(sv(final(v)@), k@) == Some(val),
        forall|k2: Seq<char>|
            k2 != k@ ==> #[trigger] lookup(sv(final(v)@), k2) == lookup(sv(old(v)@), k2),
{
    skv_remove(v, k);
    let ghost mid = v@;
    let owned = k.clone();
    v.push((owned, val));
    proof {
        assert(sv(v@) =~= sv(mid).push((k@, val)));
        lemma_uniq_push(sv(mid), (k@, val));
        lemma_lookup_push(sv(mid), (k@, val), k@);
        assert forall|k2: Seq<char>| k2 != k@ implies #[trigger] lookup(sv(v@), k2) == lookup(
            sv(mid),
            k2,
        ) by {
            lemma_lookup_push(sv(mid), (k@, val), k2);
        }
    }
}

// ------------------------------------------- (String, u16) composite keys
/// View of a store keyed by client identifier and packet identifier.
pub open spec fn cpv<V>(s: Seq<((String, u16), V)>) -> Seq<((Seq<char>, u16), V)> {
    s.map_values(|p: ((String, u16), V)| ((p.0.0@, p.0.1), p.1))
}

/// Index of the entry keyed `(c, p)`, if any.
pub fn cpkv_find<V>(v: &Vec<((String, u16), V)>, c: &String, p: u16) -> (r: Option<usize>)
    ensures
        match r {
            Some(i) => i < v@.len() && (v@[i as int].0.0@, v@[i as int].0.1) == (c@, p) && lookup(
                cpv(v@),
                (c@, p),
            ) == Some(v@[i as int].1),
            None => !has_key(cpv(v@), (c@, p)),
        },
{
    proof {
        assert(cpv(v@).skip(0) =~= cpv(v@));
    }
    let mut i: usize = 0;
    while i < v.len()
        invariant
            i <= v@.len(),
            cpv(v@).len() == v@.len(),
            lookup(cpv(v@), (c@, p)) == lookup(cpv(v@).skip(i as int), (c@, p)),
        decreases v@.len() - i,
    {
        proof {
            assert(cpv(v@)[i as int] == ((v@[i as int].0.0@, v@[i as int].0.1), v@[i as int].1));
            lemma_lookup_skip_step(cpv(v@), i as int, (c@, p));
        }
        let hit = v[i].0.0 == *c && v[i].0.1 == p;
        if hit {
            return Some(i);
        }
        i = i + 1;
    }
    proof {
        assert(cpv(v@).skip(v@.len() as int) =~= Seq::<((Seq<char>, u16), V)>::empty());
    }
    None
}

/// Removes the entry keyed `(c, p)` if present; idempotent.
pub fn cpkv_remove<V>(v: &mut Vec<((String, u16), V)>, c: &String, p: u16)
    requires
        uniq_keys(cpv(old(v)@)),
    ensures
        uniq_keys(cpv(final(v)@)),
        !has_key(cpv(final(v)@), (c@, p)),
        forall|k2: (Seq<char>, u16)|
            k2 != (c@, p) ==> #[trigger] lookup(cpv(final(v)@), k2) == lookup(cpv(old(v)@), k2),
{
    let found = cpkv_find(v, c, p);
    match found {
        None => {
            proof {
                crate::kvlist::lemma_lookup_absent(cpv(v@), (c@, p));
            }
        },
        Some(i) => {
            v.remove(i);
            proof {
                let pre = cpv(old(v)@);
                assert(pre.len() == old(v)@.len());
                assert(cpv(v@) =~= pre.remove(i as int));
                lemma_uniq_remove(pre, i as int);
                assert(pre[i as int].0 == (c@, p));
                assert forall|k2: (Seq<char>, u16)| true implies #[trigger] lookup(
                    pre.remove(i as int),
                    k2,
                ) == (if pre[i as int].0 == k2 {
                    None::<V>
                } else {
                    lookup(pre, k2)
                }) by {
                    lemma_lookup_remove_at(pre, i as int, k2);
                }
            }
        },
    }
}

/// Binds `(c, p)` to `val`, replacing any earlier binding.
pub fn cpkv_insert<V>(v: &mut Vec<((String, u16), V)>, c: &String, p: u16, val: V)
    requires
        uniq_keys(cpv(old(v)@)),
    ensures
        uniq_keys(cpv(final(v)@)),
        lookup(cpv(final(v)@), (c@, p)) == Some(val),
        forall|k2: (Seq<char>, u16)|
            k2 != (c@, p) ==> #[trigger] lookup(cpv(final(v)@), k2) == lookup(cpv(old(v)@), k2),
{
    cpkv_remove(v, c, p);
    let ghost mid = v@;
    let owned = c.clone();
    v.push(((owned, p), val));
    proof {
        assert(cpv(v@) =~= cpv(mid).push(((c@, p), val)));
        lemma_uniq_push(cpv(mid), ((c@, p), val));
        lemma_lookup_push(cpv(mid), ((c@, p), val), (c@, p));
        assert forall|k2: (Seq<char>, u16)| k2 != (c@, p) implies #[trigger] lookup(cpv(v@), k2)
            == lookup(cpv(mid), k2) by {
            lemma_lookup_push(cpv(mid), ((c@, p), val), k2);
        }
    }
}

// ---------------------------------------- (String, String) composite keys
/// View of a store keyed by client identifier and filter path.
pub open spec fn ssv<V>(s: Seq<((String, String), V)>) -> Seq<((Seq<char>, Seq<char>), V)> {
    s.map_values(|p: ((String, String), V)| ((p.0.0@, p.0.1@), p.1))
}

/// Index of the entry keyed `(a, b)`, if any.
pub fn sskv_find<V>(v: &Vec<((String, String), V)>, a: &String, b: &String) -> (r: Option<usize>)
    ensures
        match r {
            Some(i) => i < v@.len() && (v@[i as int].0.0@, v@[i as int].0.1@) == (a@, b@)
                && lookup(ssv(v@), (a@, b@)) == Some(v@[i as int].1),
            None => !has_key(ssv(v@), (a@, b@)),
        },
{
    proof {
        assert(ssv(v@).skip(0) =~= ssv(v@));
    }
    let mut i: usize = 0;
    while i < v.len()
        invariant
            i <= v@.len(),
            ssv(v@).len() == v@.len(),
            lookup(ssv(v@), (a@, b@)) == lookup(ssv(v@).skip(i as int), (a@, b@)),
        decreases v@.len() - i,
    {
        proof {
            assert(ssv(v@)[i as int] == ((v@[i as int].0.0@, v@[i as int].0.1@), v@[i as int].1));
            lemma_lookup_skip_step(ssv(v@), i as int, (a@, b@));
        }
        let hit = v[i].0.0 == *a && v[i].0.1 == *b;
        if hit {
            return Some(i);
        }
        i = i + 1;
    }
    proof {
        assert(ssv(v@).skip(v@.len() as int) =~= Seq::<((Seq<char>, Seq<char>), V)>::empty());
    }
    None
}

/// Removes the entry keyed `(a, b)` if present; idempotent.
pub fn sskv_remove<V>(v: &mut Vec<((String, String), V)>, a: &String, b: &String)
    requires
        uniq_keys(ssv(old(v)@)),
    ensures
        uniq_keys(ssv(final(v)@)),
        !has_key(ssv(final(v)@), (a@, b@)),
        forall|k2: (Seq<char>, Seq<char>)|
            k2 != (a@, b@) ==> #[trigger] lookup(ssv(final(v)@), k2) == lookup(ssv(old(v)@), k2),
{
    let found = sskv_find(v, a, b);
    match found {
        None => {
            proof {
                crate::kvlist::lemma_lookup_absent(ssv(v@), (a@, b@));
            }
        },
        Some(i) => {
            v.remove(i);
            proof {
                let pre = ssv(old(v)@);
                assert(pre.len() == old(v)@.len());
                assert(ssv(v@) =~= pre.remove(i as int));
                lemma_uniq_remove(pre, i as int);
                assert(pre[i as int].0 == (a@, b@));
                assert forall|k2: (Seq<char>, Seq<char>)| true implies #[trigger] lookup(
                    pre.remove(i as int),
                    k2,
                ) == (if pre[i as int].0 == k2 {
                    None::<V>
                } else {
                    lookup(pre, k2)
                }) by {
                    lemma_lookup_remove_at(pre, i as int, k2);
                }
            }
        },
    }
}

/// Binds `(a, b)` to `val`, replacing any earlier binding.
pub fn sskv_insert<V>(v: &mut Vec<((String, String), V)>, a: &String, b: &String, val: V)
    requires
        uniq_keys(ssv(old(v)@)),
    ensures
        uniq_keys(ssv(final(v)@)),
        lookup(ssv(final(v)@), (a@, b@)) == Some(val),
        forall|k2: (Seq<char>, Seq<char>)|
            k2 != (a@, b@) ==> #[trigger] lookup(ssv(final(v)@), k2) == lookup(ssv(old(v)@), k2),
{
    sskv_remove(v, a, b);
    let ghost mid = v@;
    let oa = a.clone();
    let ob = b.clone();
    v.push(((oa, ob), val));
    proof {
        assert(ssv(v@) =~= ssv(mid).push(((a@, b@), val)));
        lemma_uniq_push(ssv(mid), ((a@, b@), val));
        lemma_lookup_push(ssv(mid), ((a@, b@), val), (a@, b@));
        assert forall|k2: (Seq<char>, Seq<char>)| k2 != (a@, b@) implies #[trigger] lookup(
            ssv(v@),
            k2,
        ) == lookup(ssv(mid), k2) by {
            lemma_lookup_push(ssv(mid), ((a@, b@), val), k2);
        }
    }
}

// -------------------------------------------------- (u64, u16) alias keys
/// Index of the topic-alias entry keyed `(c, a)`, if any.
pub fn alias_find(v: &Vec<((u64, u16), String)>, c: u64, a: u16) -> (r: Option<usize>)
    ensures
        match r {
            Some(i) => i < v@.len() && v@[i as int].0 == (c, a) && lookup(v@, (c, a)) == Some(
                v@[i as int].1,
            ),
            None => !has_key(v@, (c, a)),
        },
{
    proof {
        assert(v@.skip(0) =~= v@);
    }
    let mut i: usize = 0;
    while i < v.len()
        invariant
            i <= v@.len(),
            lookup(v@, (c, a)) == lookup(v@.skip(i as int), (c, a)),
        decreases v@.len() - i,
    {
        proof {
            lemma_lookup_skip_step(v@, i as int, (c, a));
        }
        let hit = v[i].0.0 == c && v[i].0.1 == a;
        if hit {
            return Some(i);
        }
        i = i + 1;
    }
    proof {
        assert(v@.skip(v@.len() as int) =~= Seq::<((u64, u16), String)>::empty());
    }
    None
}

/// Binds the alias `(c, a)` to a topic name, replacing any earlier binding.
pub fn alias_insert(v: &mut Vec<((u64, u16), String)>, c: u64, a: u16, val: String)
    requires
        uniq_keys(old(v)@),
    ensures
        uniq_keys(final(v)@),
        lookup(final(v)@, (c, a)) == Some(val),
        forall|k2: (u64, u16)|
            k2 != (c, a) ==> #[trigger] lookup(final(v)@, k2) == lookup(old(v)@, k2),
{
    let found = alias_find(v, c, a);
    match found {
        None => {
            proof {
                crate::kvlist::lemma_lookup_absent(v@, (c, a));
            }
        },
        Some(i) => {
            v.remove(i);
            proof {
                let pre = old(v)@;
                lemma_uniq_remove(pre, i as int);
                assert forall|k2: (u64, u16)| true implies #[trigger] lookup(
                    pre.remove(i as int),
                    k2,
                ) == (if pre[i as int].0 == k2 {
                    None::<String>
                } else {
                    lookup(pre, k2)
                }) by {
                    lemma_lookup_remove_at(pre, i as int, k2);
                }
            }
        },
    }
    let ghost mid = v@;
    v.push(((c, a), val));
    proof {
        lemma_uniq_push(mid, ((c, a), val));
        lemma_lookup_push(mid, ((c, a), val), (c, a));
        assert forall|k2: (u64, u16)| k2 != (c, a) implies #[trigger] lookup(v@, k2) == lookup(
            mid,
            k2,
        ) by {
            lemma_lookup_push(mid, ((c, a), val), k2);
        }
    }
}

} // verus!
