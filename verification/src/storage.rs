//! The message storage behind the handler: a per-topic append log and the
//! retained-message store, both keyed by topic identifier.

use vstd::prelude::*;

use crate::kvlist::{has_key, lookup, uniq_keys};
use crate::store::{ukv_find, ukv_insert, ukv_remove};
use crate::types::{LogRecord, MqttMessage};

verus! {

/// Per-topic append-only message log.
pub struct MessageLog {
    pub logs: Vec<(u64, Vec<LogRecord>)>,
}

/// The records appended so far under a topic identifier.
pub open spec fn topic_log(m: MessageLog, topic_id: u64) -> Seq<LogRecord> {
    match lookup(m.logs@, topic_id) {
        Some(v) => v@,
        None => Seq::<LogRecord>::empty(),
    }
}

impl MessageLog {
    /// One log per topic identifier.
    pub open spec fn wf(self) -> bool {
        uniq_keys(self.logs@)
    }

    pub fn new() -> (r: MessageLog)
        ensures
            r.wf(),
            r.logs@.len() == 0,
            forall|t: u64| #[trigger] topic_log(r, t) == Seq::<LogRecord>::empty(),
    {
        MessageLog { logs: Vec::new() }
    }

    /// Appends records under a topic and returns the offset of the first
    /// one: the number of records the topic held before.
    pub fn append_topic_message(&mut self, topic_id: u64, records: Vec<LogRecord>) -> (r: Result<
        u64,
        String,
    >)
        requires
            old(self).wf(),
        ensures
            final(self).wf(),
            r matches Ok(off) && off as int == topic_log(*old(self), topic_id).len(),
            topic_log(*final(self), topic_id) == topic_log(*old(self), topic_id) + records@,
            forall|t2: u64|
                t2 != topic_id ==> #[trigger] topic_log(*final(self), t2) == topic_log(
                    *old(self),
                    t2,
                ),
            forall|t2: u64|
                t2 != topic_id ==> #[trigger] lookup(final(self).logs@, t2) == lookup(
                    old(self).logs@,
                    t2,
                ),
    {
        let mut records = records;
        match ukv_find(&self.logs, topic_id) {
            Some(i) => {
                let mut pair = self.logs.remove(i);
                proof {
                    let pre = old(self).logs@;
                    assert(self.logs@ == pre.remove(i as int));
                    crate::kvlist::lemma_uniq_remove(pre, i as int);
                    assert forall|t2: u64| true implies #[trigger] lookup(
                        pre.remove(i as int),
                        t2,
                    ) == (if pre[i as int].0 == t2 {
                        None::<Vec<LogRecord>>
                    } else {
                        lookup(pre, t2)
                    }) by {
                        crate::kvlist::lemma_lookup_remove_at(pre, i as int, t2);
                    }
                }
                let offset = pair.1.len() as u64;
                pair.1.append(&mut records);
                ukv_insert(&mut self.logs, topic_id, pair.1);
                Ok(offset)
            },
            None => {
                ukv_insert(&mut self.logs, topic_id, records);
                Ok(0)
            },
        }
    }
}

/// Latest retained message per topic identifier.
pub struct RetainedStore {
    pub retained: Vec<(u64, MqttMessage)>,
}

/// The retained message of a topic, if any.
pub open spec fn retained_of(s: RetainedStore, topic_id: u64) -> Option<MqttMessage> {
    lookup(s.retained@, topic_id)
}

impl RetainedStore {
    /// One retained message per topic identifier.
    pub open spec fn wf(self) -> bool {
        uniq_keys(self.retained@)
    }

    pub fn new() -> (r: RetainedStore)
        ensures
            r.wf(),
            r.retained@.len() == 0,
            forall|t: u64| #[trigger] retained_of(r, t) is None,
    {
        RetainedStore { retained: Vec::new() }
    }

    /// Stores the latest retained message of a topic; an empty payload
    /// deletes the entry instead.
    pub fn save_retain_message(&mut self, topic_id: u64, message: MqttMessage) -> (r: Result<
        (),
        String,
    >)
        requires
            old(self).wf(),
        ensures
            final(self).wf(),
            r is Ok,
            message.payload@.len() == 0 ==> retained_of(*final(self), topic_id) is None,
            message.payload@.len() > 0 ==> retained_of(*final(self), topic_id) == Some(message),
            forall|t2: u64|
                t2 != topic_id ==> #[trigger] lookup(final(self).retained@, t2) == lookup(
                    old(self).retained@,
                    t2,
                ),
    {
        if message.payload.len() == 0 {
            ukv_remove(&mut self.retained, topic_id);
        } else {
            ukv_insert(&mut self.retained, topic_id, message);
        }
        Ok(())
    }

    /// The retained message of a topic, if any.
    pub fn get_retain_message(&self, topic_id: u64) -> (r: Option<&MqttMessage>)
        ensures
            match r {
                Some(m) => retained_of(*self, topic_id) == Some(*m),
                None => retained_of(*self, topic_id) is None,
            },
    {
        match ukv_find(&self.retained, topic_id) {
            Some(i) => Some(&self.retained[i].1),
            None => None,
        }
    }

    /// Deletes the retained message of a topic; idempotent.
    pub fn delete_retain_message(&mut self, topic_id: u64) -> (r: Result<(), String>)
        requires
            old(self).wf(),
        ensures
            final(self).wf(),
            r is Ok,
            retained_of(*final(self), topic_id) is None,
            forall|t2: u64|
                t2 != topic_id ==> #[trigger] lookup(final(self).retained@, t2) == lookup(
                    old(self).retained@,
                    t2,
                ),
    {
        ukv_remove(&mut self.retained, topic_id);
        Ok(())
    }
}

} // verus!
