//! Idempotency tables: per-client sets of in-flight packet identifiers, one
//! for QoS 2 publishes awaiting PUBREL and one for in-flight SUBSCRIBEs.

use vstd::prelude::*;

use crate::kvlist::{
    has_key, key_count, lemma_lookup_push, lemma_lookup_remove_at, lemma_lookup_skip_step,
    lemma_uniq_push, lemma_uniq_remove, lookup, uniq_keys,
};

verus! {

/// Model of a pkid table: each `(client identifier, packet identifier)`
/// pair is a key; the table is a set, so values carry no data.
pub open spec fn pkid_view(v: Seq<(String, u16)>) -> Seq<((Seq<char>, u16), ())> {
    v.map_values(|p: (String, u16)| ((p.0@, p.1), ()))
}

/// The two in-flight packet-identifier sets.
pub struct QosMemory {
    /// QoS 2 publishes received and acknowledged with PUBREC, awaiting PUBREL.
    pub qos_pkid: Vec<(String, u16)>,
    /// SUBSCRIBE packet identifiers currently being processed.
    pub sub_pkid: Vec<(String, u16)>,
}

impl QosMemory {
    /// Both tables are genuine sets: no pair occurs twice.
    pub open spec fn wf(self) -> bool {
        uniq_keys(pkid_view(self.qos_pkid@)) && uniq_keys(pkid_view(self.sub_pkid@))
    }

    pub fn new() -> (r: QosMemory)
        ensures
            r.wf(),
            pkid_view(r.qos_pkid@) == Seq::<((Seq<char>, u16), ())>::empty(),
            pkid_view(r.sub_pkid@) == Seq::<((Seq<char>, u16), ())>::empty(),
    {
        let r = QosMemory { qos_pkid: Vec::new(), sub_pkid: Vec::new() };
        proof {
            assert(pkid_view(r.qos_pkid@) =~= Seq::<((Seq<char>, u16), ())>::empty());
            assert(pkid_view(r.sub_pkid@) =~= Seq::<((Seq<char>, u16), ())>::empty());
        }
        r
    }

    /// Whether a QoS 2 publish with this packet identifier is in flight.
    pub fn get_qos_pkid_data(&self, client_id: &String, pkid: u16) -> (r: bool)
        ensures
            r == has_key(pkid_view(self.qos_pkid@), (client_id@, pkid)),
    {
        contains_pair(&self.qos_pkid, client_id, pkid)
    }

    /// Records a QoS 2 publish as received; inserting a pair already present
    /// changes nothing.
    pub fn save_qos_pkid_data(&mut self, client_id: &String, pkid: u16)
        requires
            old(self).wf(),
        ensures
            final(self).wf(),
            final(self).sub_pkid == old(self).sub_pkid,
            has_key(pkid_view(final(self).qos_pkid@), (client_id@, pkid)),
            forall|k: (Seq<char>, u16)|
                k != (client_id@, pkid) ==> #[trigger] lookup(
                    pkid_view(final(self).qos_pkid@),
                    k,
                ) == lookup(pkid_view(old(self).qos_pkid@), k),
    {
        insert_pair(&mut self.qos_pkid, client_id, pkid)
    }

    /// Forgets a QoS 2 publish; deleting an absent pair changes nothing.
    pub fn delete_qos_pkid_data(&mut self, client_id: &String, pkid: u16)
        requires
            old(self).wf(),
        ensures
            final(self).wf(),
            final(self).sub_pkid == old(self).sub_pkid,
            !has_key(pkid_view(final(self).qos_pkid@), (client_id@, pkid)),
            forall|k: (Seq<char>, u16)|
                k != (client_id@, pkid) ==> #[trigger] lookup(
                    pkid_view(final(self).qos_pkid@),
                    k,
                ) == lookup(pkid_view(old(self).qos_pkid@), k),
    {
        remove_pair(&mut self.qos_pkid, client_id, pkid)
    }

    /// Whether a SUBSCRIBE with this packet identifier is in flight.
    pub fn get_sub_pkid_data(&self, client_id: &String, pkid: u16) -> (r: bool)
        ensures
            r == has_key(pkid_view(self.sub_pkid@), (client_id@, pkid)),
    {
        contains_pair(&self.sub_pkid, client_id, pkid)
    }

    /// Records a SUBSCRIBE as in flight; idempotent.
    pub fn save_sub_pkid_data(&mut self, client_id: &String, pkid: u16)
        requires
            old(self).wf(),
        ensures
            final(self).wf(),
            final(self).qos_pkid == old(self).qos_pkid,
            has_key(pkid_view(final(self).sub_pkid@), (client_id@, pkid)),
            forall|k: (Seq<char>, u16)|
                k != (client_id@, pkid) ==> #[trigger] lookup(
                    pkid_view(final(self).sub_pkid@),
                    k,
                ) == lookup(pkid_view(old(self).sub_pkid@), k),
    {
        insert_pair(&mut self.sub_pkid, client_id, pkid)
    }

    /// Forgets a SUBSCRIBE packet identifier; idempotent.
    pub fn delete_sub_pkid_data(&mut self, client_id: &String, pkid: u16)
        requires
            old(self).wf(),
        ensures
            final(self).wf(),
            final(self).qos_pkid == old(self).qos_pkid,
            !has_key(pkid_view(final(self).sub_pkid@), (client_id@, pkid)),
            forall|k: (Seq<char>, u16)|
                k != (client_id@, pkid) ==> #[trigger] lookup(
                    pkid_view(final(self).sub_pkid@),
                    k,
                ) == lookup(pkid_view(old(self).sub_pkid@), k),
    {
        remove_pair(&mut self.sub_pkid, client_id, pkid)
    }
}

/// Scans for the pair, left to right.
fn contains_pair(v: &Vec<(String, u16)>, client_id: &String, pkid: u16) -> (r: bool)
    ensures
        r == has_key(pkid_view(v@), (client_id@, pkid)),
{
    let ghost key = (client_id@, pkid);
    proof {
        assert(pkid_view(v@).skip(0) =~= pkid_view(v@));
    }
    let mut i: usize = 0;
    while i < v.len()
        invariant
            i <= v@.len(),
            pkid_view(v@).len() == v@.len(),
            lookup(pkid_view(v@), key) == lookup(pkid_view(v@).skip(i as int), key),
            key == (client_id@, pkid),
        decreases v@.len() - i,
    {
        let entry = &v[i];
        proof {
            assert(pkid_view(v@)[i as int] == ((v@[i as int].0@, v@[i as int].1), ()));
            lemma_lookup_skip_step(pkid_view(v@), i as int, key);
        }
        if entry.0 == *client_id && entry.1 == pkid {
            return true;
        }
        i = i + 1;
    }
    proof {
        assert(pkid_view(v@).skip(v@.len() as int) =~= Seq::<((Seq<char>, u16), ())>::empty());
    }
    false
}

/// Appends the pair unless it is already present.
fn insert_pair(v: &mut Vec<(String, u16)>, client_id: &String, pkid: u16)
    requires
        uniq_keys(pkid_view(old(v)@)),
    ensures
        uniq_keys(pkid_view(final(v)@)),
        has_key(pkid_view(final(v)@), (client_id@, pkid)),
        forall|k: (Seq<char>, u16)|
            k != (client_id@, pkid) ==> #[trigger] lookup(pkid_view(final(v)@), k) == lookup(
                pkid_view(old(v)@),
                k,
            ),
{
    let ghost key = (client_id@, pkid);
    if contains_pair(v, client_id, pkid) {
        return ;
    }
    let owned = client_id.clone();
    v.push((owned, pkid));
    proof {
        let pre = pkid_view(old(v)@);
        assert(pkid_view(v@) =~= pre.push((key, ())));
        lemma_uniq_push(pre, (key, ()));
        assert forall|k: (Seq<char>, u16)| true implies #[trigger] lookup(pre.push((key, ())), k)
            == (if has_key(pre, k) {
            lookup(pre, k)
        } else if k == key {
            Some(())
        } else {
            None::<()>
        }) by {
            lemma_lookup_push(pre, (key, ()), k);
        }
    }
}

/// Removes the pair if present.
fn remove_pair(v: &mut Vec<(String, u16)>, client_id: &String, pkid: u16)
    requires
        uniq_keys(pkid_view(old(v)@)),
    ensures
        uniq_keys(pkid_view(final(v)@)),
        !has_key(pkid_view(final(v)@), (client_id@, pkid)),
        forall|k: (Seq<char>, u16)|
            k != (client_id@, pkid) ==> #[trigger] lookup(pkid_view(final(v)@), k) == lookup(
                pkid_view(old(v)@),
                k,
            ),
{
    let ghost key = (client_id@, pkid);
    proof {
        assert(pkid_view(v@).skip(0) =~= pkid_view(v@));
    }
    let mut i: usize = 0;
    while i < v.len()
        invariant
            i <= v@.len(),
            v@ == old(v)@,
            uniq_keys(pkid_view(old(v)@)),
            pkid_view(v@).len() == v@.len(),
            lookup(pkid_view(v@), key) == lookup(pkid_view(v@).skip(i as int), key),
            forall|j: int| 0 <= j < i ==> #[trigger] pkid_view(v@)[j].0 != key,
            key == (client_id@, pkid),
        decreases v@.len() - i,
    {
        let hit = {
            let entry = &v[i];
            proof {
                assert(pkid_view(v@)[i as int] == ((v@[i as int].0@, v@[i as int].1), ()));
                lemma_lookup_skip_step(pkid_view(v@), i as int, key);
            }
            entry.0 == *client_id && entry.1 == pkid
        };
        if hit {
            v.remove(i);
            proof {
                let pre = pkid_view(old(v)@);
                assert(pre.len() == old(v)@.len());
                assert(i < pre.len());
                assert(pkid_view(v@) =~= pre.remove(i as int));
                lemma_uniq_remove(pre, i as int);
                assert forall|k: (Seq<char>, u16)| true implies #[trigger] lookup(
                    pre.remove(i as int),
                    k,
                ) == (if pre[i as int].0 == k {
                    None::<()>
                } else {
                    lookup(pre, k)
                }) by {
                    lemma_lookup_remove_at(pre, i as int, k);
                }
            }
            return ;
        }
        i = i + 1;
    }
    proof {
        assert(pkid_view(v@).skip(v@.len() as int) =~= Seq::<((Seq<char>, u16), ())>::empty());
    }
}

/// The QoS 2 lifecycle of one packet identifier.  From a table without the
/// pair, receiving the publish (which inserts it) leaves exactly one entry,
/// and the following PUBREL (which deletes it) leaves none and restores
/// every other binding — so PUBCOMP can succeed for the pair only once.
pub proof fn lemma_qos2_lifecycle(
    s1: Seq<((Seq<char>, u16), ())>,
    s2: Seq<((Seq<char>, u16), ())>,
    s3: Seq<((Seq<char>, u16), ())>,
    k: (Seq<char>, u16),
)
    requires
        uniq_keys(s1),
        uniq_keys(s2),
        uniq_keys(s3),
        !has_key(s1, k),
        // How the table moves when the QoS 2 publish is accepted.
        has_key(s2, k),
        forall|k2: (Seq<char>, u16)| k2 != k ==> #[trigger] lookup(s2, k2) == lookup(s1, k2),
        // How it moves when the PUBREL arrives.
        !has_key(s3, k),
        forall|k2: (Seq<char>, u16)| k2 != k ==> #[trigger] lookup(s3, k2) == lookup(s2, k2),
    ensures
        key_count(s2, k) == 1,
        key_count(s3, k) == 0,
        forall|k2: (Seq<char>, u16)| k2 != k ==> #[trigger] lookup(s3, k2) == lookup(s1, k2),
{
    crate::kvlist::lemma_key_count(s2, k);
    crate::kvlist::lemma_key_count(s3, k);
}

/// With the table well formed, a present pair occurs exactly once and an
/// absent one not at all: the QoS 2 idempotency entry for a packet
/// identifier is unique while it lives.
pub proof fn lemma_pkid_entry_unique(s: Seq<((Seq<char>, u16), ())>, k: (Seq<char>, u16))
    requires
        uniq_keys(s),
    ensures
        key_count(s, k) == (if has_key(s, k) {
            1nat
        } else {
            0nat
        }),
{
    crate::kvlist::lemma_key_count(s, k);
}

} // verus!
