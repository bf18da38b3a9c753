//! Sharded last-seen records: connection `c` lives in shard `c mod N`, so
//! parallel writers rarely contend.

use vstd::prelude::*;

use crate::kvlist::{has_key, lookup, uniq_keys};
use crate::store::{ukv_find, ukv_insert, ukv_remove};
use crate::types::ConnectionLiveTime;
use vstd::std_specs::vec::vec_index_mut;

verus! {

/// Sharded map from connection identifier to its liveness record.
pub struct HeartbeatCache {
    /// Number of shards, fixed at construction.
    pub shard_count: usize,
    pub shards: Vec<Vec<(u64, ConnectionLiveTime)>>,
}

/// The shard a connection's record lives in.
pub open spec fn shard_of(c: u64, count: usize) -> int {
    (c % (count as u64)) as int
}

/// The liveness record of a connection, read through its shard.
pub open spec fn hb_lookup(h: HeartbeatCache, c: u64) -> Option<ConnectionLiveTime> {
    lookup(h.shards@[shard_of(c, h.shard_count)]@, c)
}

impl HeartbeatCache {
    /// Shards exist, have unique keys, and hold only their own connections.
    pub open spec fn wf(self) -> bool {
        &&& self.shard_count > 0
        &&& self.shards@.len() == self.shard_count
        &&& forall|s: int| 0 <= s < self.shards@.len() ==> uniq_keys(#[trigger] self.shards@[s]@)
        &&& forall|s: int, i: int|
            0 <= s < self.shards@.len() && 0 <= i < self.shards@[s]@.len() ==> shard_of(
                #[trigger] self.shards@[s]@[i].0,
                self.shard_count,
            ) == s
    }

    pub fn new(shard_count: usize) -> (r: HeartbeatCache)
        requires
            shard_count > 0,
        ensures
            r.wf(),
            r.shard_count == shard_count,
            forall|c: u64| hb_lookup(r, c) is None,
    {
        let mut shards: Vec<Vec<(u64, ConnectionLiveTime)>> = Vec::new();
        let mut i: usize = 0;
        while i < shard_count
            invariant
                i <= shard_count,
                shards@.len() == i,
                forall|s: int| 0 <= s < i ==> (#[trigger] shards@[s]@).len() == 0,
            decreases shard_count - i,
        {
            shards.push(Vec::new());
            i = i + 1;
        }
        let r = HeartbeatCache { shard_count, shards };
        proof {
            assert forall|c: u64| hb_lookup(r, c) is None by {
                assert(0 <= shard_of(c, shard_count) < shard_count as int) by (nonlinear_arith)
                    requires
                        shard_count > 0,
                ;
            }
        }
        r
    }

    /// Records the latest heartbeat of a connection.
    pub fn report_heartbeat(&mut self, connect_id: u64, live_time: ConnectionLiveTime)
        requires
            old(self).wf(),
        ensures
            final(self).wf(),
            final(self).shard_count == old(self).shard_count,
            hb_lookup(*final(self), connect_id) == Some(live_time),
            forall|c2: u64|
                c2 != connect_id ==> #[trigger] hb_lookup(*final(self), c2) == hb_lookup(
                    *old(self),
                    c2,
                ),
    {
        let ghost pre = *old(self);
        let count = self.shard_count;
        let idx = (connect_id % (count as u64)) as usize;
        proof {
            assert(0 <= shard_of(connect_id, count) < count as int) by (nonlinear_arith)
                requires
                    count > 0,
            ;
            assert(idx as int == shard_of(connect_id, count));
        }
        let ghost oldshard = self.shards@[idx as int]@;
        let shard = vec_index_mut(&mut self.shards, idx);
        ukv_insert(shard, connect_id, live_time);
        proof {
            let post = self.shards@[idx as int]@;
            assert forall|i: int| 0 <= i < post.len() implies shard_of(
                #[trigger] post[i].0,
                count,
            ) == idx as int by {
                crate::kvlist::lemma_lookup_at(post, i);
                if post[i].0 != connect_id {
                    crate::kvlist::lemma_lookup_present(oldshard, post[i].0);
                }
            }
            assert forall|c2: u64| c2 != connect_id implies #[trigger] hb_lookup(*self, c2)
                == hb_lookup(pre, c2) by {
                if shard_of(c2, count) != idx as int {
                    assert(self.shards@[shard_of(c2, count)] == pre.shards@[shard_of(c2, count)]);
                }
            }
        }
    }

    /// Forgets the record of a connection; idempotent.
    pub fn remove_connection(&mut self, connect_id: u64)
        requires
            old(self).wf(),
        ensures
            final(self).wf(),
            final(self).shard_count == old(self).shard_count,
            hb_lookup(*final(self), connect_id) is None,
            forall|c2: u64|
                c2 != connect_id ==> #[trigger] hb_lookup(*final(self), c2) == hb_lookup(
                    *old(self),
                    c2,
                ),
    {
        let ghost pre = *old(self);
        let count = self.shard_count;
        let idx = (connect_id % (count as u64)) as usize;
        proof {
            assert(0 <= shard_of(connect_id, count) < count as int) by (nonlinear_arith)
                requires
                    count > 0,
            ;
            assert(idx as int == shard_of(connect_id, count));
        }
        let ghost oldshard = self.shards@[idx as int]@;
        let shard = vec_index_mut(&mut self.shards, idx);
        ukv_remove(shard, connect_id);
        proof {
            let post = self.shards@[idx as int]@;
            assert forall|i: int| 0 <= i < post.len() implies shard_of(
                #[trigger] post[i].0,
                count,
            ) == idx as int by {
                crate::kvlist::lemma_lookup_at(post, i);
                crate::kvlist::lemma_lookup_present(oldshard, post[i].0);
            }
            assert forall|c2: u64| c2 != connect_id implies #[trigger] hb_lookup(*self, c2)
                == hb_lookup(pre, c2) by {
                if shard_of(c2, count) != idx as int {
                    assert(self.shards@[shard_of(c2, count)] == pre.shards@[shard_of(c2, count)]);
                }
            }
        }
    }

    /// The liveness record of a connection, if any.
    pub fn get_heartbeat(&self, connect_id: u64) -> (r: Option<ConnectionLiveTime>)
        requires
            self.wf(),
        ensures
            r == hb_lookup(*self, connect_id),
    {
        let count = self.shard_count;
        let idx = (connect_id % (count as u64)) as usize;
        proof {
            assert(0 <= shard_of(connect_id, count) < count as int) by (nonlinear_arith)
                requires
                    count > 0,
            ;
            assert(idx as int == shard_of(connect_id, count));
        }
        match ukv_find(&self.shards[idx], connect_id) {
            Some(i) => Some(self.shards[idx][i].1),
            None => None,
        }
    }
}

} // verus!
