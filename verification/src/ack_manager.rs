//! Acknowledgement waiters: one delivery slot per `(client, pkid)`, filled
//! by the matching inbound PUBACK, PUBREC or PUBCOMP and read by the push
//! worker that sent the publish.

use vstd::prelude::*;

use crate::kvlist::{has_key, lookup, uniq_keys};
use crate::store::{cpkv_find, cpkv_insert, cpkv_remove, cpv};
use crate::types::AckPackageData;

verus! {

/// One waiter: empty until the acknowledgement arrives.
#[derive(Debug, Clone, Copy, PartialEq, Eq, Structural)]
pub struct AckWaiter {
    pub delivered: Option<AckPackageData>,
}

/// The registry of acknowledgement waiters.
pub struct AckManager {
    pub waiters: Vec<((String, u16), AckWaiter)>,
}

impl AckManager {
    /// At most one waiter per `(client, pkid)`.
    pub open spec fn wf(self) -> bool {
        uniq_keys(cpv(self.waiters@))
    }

    pub fn new() -> (r: AckManager)
        ensures
            r.wf(),
            r.waiters@.len() == 0,
    {
        AckManager { waiters: Vec::new() }
    }

    /// Installs an empty waiter, replacing any earlier one for the pair.
    pub fn register(&mut self, client_id: &String, pkid: u16)
        requires
            old(self).wf(),
        ensures
            final(self).wf(),
            lookup(cpv(final(self).waiters@), (client_id@, pkid)) == Some(
                AckWaiter { delivered: None },
            ),
            forall|k2: (Seq<char>, u16)|
                k2 != (client_id@, pkid) ==> #[trigger] lookup(cpv(final(self).waiters@), k2)
                    == lookup(cpv(old(self).waiters@), k2),
    {
        cpkv_insert(&mut self.waiters, client_id, pkid, AckWaiter { delivered: None });
    }

    /// The waiter of a pair, if any.
    pub fn get(&self, client_id: &String, pkid: u16) -> (r: Option<AckWaiter>)
        ensures
            r == lookup(cpv(self.waiters@), (client_id@, pkid)),
    {
        match cpkv_find(&self.waiters, client_id, pkid) {
            Some(i) => Some(self.waiters[i].1),
            None => None,
        }
    }

    /// Delivers an acknowledgement into the waiter of the pair.  Returns
    /// whether a waiter was there; delivery to a missing waiter is a lost
    /// acknowledgement, which the caller swallows.
    pub fn complete(&mut self, client_id: &String, pkid: u16, data: AckPackageData) -> (r: bool)
        requires
            old(self).wf(),
        ensures
            final(self).wf(),
            r == has_key(cpv(old(self).waiters@), (client_id@, pkid)),
            r ==> lookup(cpv(final(self).waiters@), (client_id@, pkid)) == Some(
                AckWaiter { delivered: Some(data) },
            ),
            !r ==> final(self).waiters == old(self).waiters,
            forall|k2: (Seq<char>, u16)|
                k2 != (client_id@, pkid) ==> #[trigger] lookup(cpv(final(self).waiters@), k2)
                    == lookup(cpv(old(self).waiters@), k2),
    {
        match cpkv_find(&self.waiters, client_id, pkid) {
            Some(_) => {
                cpkv_insert(
                    &mut self.waiters,
                    client_id,
                    pkid,
                    AckWaiter { delivered: Some(data) },
                );
                true
            },
            None => false,
        }
    }

    /// Drops the waiter of a pair; idempotent.
    pub fn remove(&mut self, client_id: &String, pkid: u16)
        requires
            old(self).wf(),
        ensures
            final(self).wf(),
            !has_key(cpv(final(self).waiters@), (client_id@, pkid)),
            forall|k2: (Seq<char>, u16)|
                k2 != (client_id@, pkid) ==> #[trigger] lookup(cpv(final(self).waiters@), k2)
                    == lookup(cpv(old(self).waiters@), k2),
    {
        cpkv_remove(&mut self.waiters, client_id, pkid);
    }
}

} // verus!
