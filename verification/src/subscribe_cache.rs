//! Validated subscriptions, keyed by client identifier and filter path.
//! The same store logic backs the push-worker index and its replica in the
//! metadata cache.

use vstd::prelude::*;

use crate::kvlist::{has_key, lookup, uniq_keys};
use crate::packet::{Subscribe, SubscribeFilter, SubscribeProperties};
use crate::store::{ssv, sskv_insert, sskv_remove};
use crate::topic_filter::{sub_path_validator, valid_filter};
use crate::types::{MqttProtocol, Subscriber};

verus! {

/// The filter a SUBSCRIBE packet finally establishes for a path: its last
/// valid entry with that path, later entries replacing earlier ones.
pub open spec fn last_valid_filter(fs: Seq<SubscribeFilter>, p: Seq<char>) -> Option<
    SubscribeFilter,
>
    decreases fs.len(),
{
    if fs.len() == 0 {
        None
    } else if fs.last().path@ == p && valid_filter(fs.last().path@) {
        Some(fs.last())
    } else {
        last_valid_filter(fs.drop_last(), p)
    }
}

/// The subscription record a filter compiles to.
pub open spec fn subscriber_of(
    client_id: String,
    f: SubscribeFilter,
    protocol: MqttProtocol,
    properties: Option<SubscribeProperties>,
) -> Subscriber {
    Subscriber {
        client_id: client_id,
        path: f.path,
        qos: f.qos,
        no_local: f.no_local,
        preserve_retain: f.preserve_retain,
        protocol: protocol,
        subscription_identifier: match properties {
            Some(p) => p.subscription_identifier,
            None => None,
        },
    }
}

/// Whether some listed path reads `p`.
pub open spec fn path_listed(ps: Seq<String>, p: Seq<char>) -> bool {
    exists|j: int| 0 <= j < ps.len() && #[trigger] ps[j]@ == p
}

/// Stores every valid filter of the packet under `(client, path)`,
/// replacing earlier subscriptions with the same path.
pub fn store_subscribe_filters(
    v: &mut Vec<((String, String), Subscriber)>,
    client_id: &String,
    protocol: MqttProtocol,
    subscribe: &Subscribe,
    properties: &Option<SubscribeProperties>,
)
    requires
        uniq_keys(ssv(old(v)@)),
    ensures
        uniq_keys(ssv(final(v)@)),
        forall|p: Seq<char>|
            match last_valid_filter(subscribe.filters@, p) {
                Some(f) => #[trigger] lookup(ssv(final(v)@), (client_id@, p)) == Some(
                    subscriber_of(*client_id, f, protocol, *properties),
                ),
                None => lookup(ssv(final(v)@), (client_id@, p)) == lookup(
                    ssv(old(v)@),
                    (client_id@, p),
                ),
            },
        forall|k2: (Seq<char>, Seq<char>)|
            k2.0 != client_id@ ==> #[trigger] lookup(ssv(final(v)@), k2) == lookup(
                ssv(old(v)@),
                k2,
            ),
{
    let n = subscribe.filters.len();
    let mut i: usize = 0;
    proof {
        assert(subscribe.filters@.take(0) =~= Seq::<SubscribeFilter>::empty());
    }
    while i < n
        invariant
            n == subscribe.filters@.len(),
            i <= n,
            uniq_keys(ssv(v@)),
            forall|p: Seq<char>|
                match last_valid_filter(subscribe.filters@.take(i as int), p) {
                    Some(f) => #[trigger] lookup(ssv(v@), (client_id@, p)) == Some(
                        subscriber_of(*client_id, f, protocol, *properties),
                    ),
                    None => lookup(ssv(v@), (client_id@, p)) == lookup(
                        ssv(old(v)@),
                        (client_id@, p),
                    ),
                },
            forall|k2: (Seq<char>, Seq<char>)|
                k2.0 != client_id@ ==> #[trigger] lookup(ssv(v@), k2) == lookup(ssv(old(v)@), k2),
        decreases n - i,
    {
        let f = &subscribe.filters[i];
        let ghost fs = subscribe.filters@;
        proof {
            assert(fs.take(i + 1).last() == fs[i as int]);
            assert(fs.take(i + 1).drop_last() =~= fs.take(i as int));
        }
        if sub_path_validator(&f.path) {
            let sub = Subscriber {
                client_id: client_id.clone(),
                path: f.path.clone(),
                qos: f.qos,
                no_local: f.no_local,
                preserve_retain: f.preserve_retain,
                protocol: protocol,
                subscription_identifier: match properties {
                    Some(p) => p.subscription_identifier,
                    None => None,
                },
            };
            proof {
                assert(sub == subscriber_of(*client_id, fs[i as int], protocol, *properties));
            }
            sskv_insert(v, client_id, &f.path, sub);
        }
        i = i + 1;
    }
    proof {
        assert(subscribe.filters@.take(n as int) =~= subscribe.filters@);
    }
}

/// Removes the subscriptions of a client under the listed paths.
pub fn remove_subscribe_paths(
    v: &mut Vec<((String, String), Subscriber)>,
    client_id: &String,
    paths: &Vec<String>,
)
    requires
        uniq_keys(ssv(old(v)@)),
    ensures
        uniq_keys(ssv(final(v)@)),
        forall|p: Seq<char>|
            #[trigger] path_listed(paths@, p) ==> !has_key(ssv(final(v)@), (client_id@, p)),
        forall|p: Seq<char>|
            !path_listed(paths@, p) ==> #[trigger] lookup(ssv(final(v)@), (client_id@, p))
                == lookup(ssv(old(v)@), (client_id@, p)),
        forall|k2: (Seq<char>, Seq<char>)|
            k2.0 != client_id@ ==> #[trigger] lookup(ssv(final(v)@), k2) == lookup(
                ssv(old(v)@),
                k2,
            ),
{
    let n = paths.len();
    let mut i: usize = 0;
    while i < n
        invariant
            n == paths@.len(),
            i <= n,
            uniq_keys(ssv(v@)),
            forall|p: Seq<char>|
                #[trigger] path_listed(paths@.take(i as int), p) ==> !has_key(
                    ssv(v@),
                    (client_id@, p),
                ),
            forall|p: Seq<char>|
                !path_listed(paths@.take(i as int), p) ==> #[trigger] lookup(
                    ssv(v@),
                    (client_id@, p),
                ) == lookup(ssv(old(v)@), (client_id@, p)),
            forall|k2: (Seq<char>, Seq<char>)|
                k2.0 != client_id@ ==> #[trigger] lookup(ssv(v@), k2) == lookup(ssv(old(v)@), k2),
        decreases n - i,
    {
        let p = &paths[i];
        sskv_remove(v, client_id, p);
        proof {
            let pre = paths@.take(i as int);
            let post = paths@.take(i + 1);
            assert forall|q: Seq<char>| path_listed(post, q) implies path_listed(pre, q) || q
                == paths@[i as int]@ by {
                let j = choose|j: int| 0 <= j < post.len() && #[trigger] post[j]@ == q;
                if j < i {
                    assert(pre[j]@ == q);
                }
            }
            assert forall|q: Seq<char>| path_listed(pre, q) implies path_listed(post, q) by {
                let j = choose|j: int| 0 <= j < pre.len() && #[trigger] pre[j]@ == q;
                assert(post[j]@ == q);
            }
            assert(post[i as int]@ == paths@[i as int]@);
        }
        i = i + 1;
    }
    proof {
        assert(paths@.take(n as int) =~= paths@);
    }
}

/// Removes every subscription of a client.
pub fn remove_client_subscriptions(v: &mut Vec<((String, String), Subscriber)>, client_id: &String)
    requires
        uniq_keys(ssv(old(v)@)),
    ensures
        uniq_keys(ssv(final(v)@)),
        forall|p: Seq<char>|
            #![trigger has_key(ssv(final(v)@), (client_id@, p))]
            !has_key(ssv(final(v)@), (client_id@, p)),
        forall|k2: (Seq<char>, Seq<char>)|
            k2.0 != client_id@ ==> #[trigger] lookup(ssv(final(v)@), k2) == lookup(
                ssv(old(v)@),
                k2,
            ),
{
    let mut collected: Vec<String> = Vec::new();
    let mut i: usize = 0;
    while i < v.len()
        invariant
            i <= v@.len(),
            forall|l: int|
                0 <= l < i && v@[l].0.0@ == client_id@ ==> path_listed(
                    collected@,
                    #[trigger] v@[l].0.1@,
                ),
        decreases v@.len() - i,
    {
        let hit = v[i].0.0 == *client_id;
        if hit {
            let ghost before = collected@;
            collected.push(v[i].0.1.clone());
            proof {
                assert(collected@[before.len() as int]@ == v@[i as int].0.1@);
                assert forall|l: int|
                    0 <= l < i + 1 && v@[l].0.0@ == client_id@ implies path_listed(
                    collected@,
                    #[trigger] v@[l].0.1@,
                ) by {
                    if l < i {
                        let j = choose|j: int|
                            0 <= j < before.len() && #[trigger] before[j]@ == v@[l].0.1@;
                        assert(collected@[j]@ == v@[l].0.1@);
                    }
                }
            }
        }
        i = i + 1;
    }
    let ghost pre = ssv(v@);
    remove_subscribe_paths(v, client_id, &collected);
    proof {
        assert forall|p: Seq<char>|
            #![trigger has_key(ssv(v@), (client_id@, p))]
            true implies !has_key(ssv(v@), (client_id@, p)) by {
            if !path_listed(collected@, p) {
                if has_key(pre, (client_id@, p)) {
                    crate::kvlist::lemma_lookup_present(pre, (client_id@, p));
                    let j = choose|j: int|
                        0 <= j < pre.len() && #[trigger] pre[j] == (
                            (client_id@, p),
                            lookup(pre, (client_id@, p))->Some_0,
                        );
                    assert(pre[j] == ((old(v)@[j].0.0@, old(v)@[j].0.1@), old(v)@[j].1));
                    assert(old(v)@[j].0.0@ == client_id@);
                    assert(path_listed(collected@, old(v)@[j].0.1@));
                    assert(false);
                }
            }
        }
    }
}

/// The push-worker index of validated subscriptions.
pub struct SubscribeCache {
    pub subscriptions: Vec<((String, String), Subscriber)>,
}

impl SubscribeCache {
    /// The index has unique `(client, path)` keys.
    pub open spec fn wf(self) -> bool {
        uniq_keys(ssv(self.subscriptions@))
    }

    pub fn new() -> (r: SubscribeCache)
        ensures
            r.wf(),
            r.subscriptions@.len() == 0,
    {
        SubscribeCache { subscriptions: Vec::new() }
    }

    /// Validates and stores the packet's filters; an invalid path is
    /// skipped, a path already subscribed is replaced.
    pub fn add_subscribe(
        &mut self,
        client_id: &String,
        protocol: MqttProtocol,
        subscribe: &Subscribe,
        properties: &Option<SubscribeProperties>,
    )
        requires
            old(self).wf(),
        ensures
            final(self).wf(),
            forall|p: Seq<char>|
                match last_valid_filter(subscribe.filters@, p) {
                    Some(f) => #[trigger] lookup(ssv(final(self).subscriptions@), (client_id@, p))
                        == Some(subscriber_of(*client_id, f, protocol, *properties)),
                    None => lookup(ssv(final(self).subscriptions@), (client_id@, p)) == lookup(
                        ssv(old(self).subscriptions@),
                        (client_id@, p),
                    ),
                },
            forall|k2: (Seq<char>, Seq<char>)|
                k2.0 != client_id@ ==> #[trigger] lookup(ssv(final(self).subscriptions@), k2)
                    == lookup(ssv(old(self).subscriptions@), k2),
    {
        store_subscribe_filters(&mut self.subscriptions, client_id, protocol, subscribe, properties)
    }

    /// Drops the listed filter paths of a client.
    pub fn remove_subscribe(&mut self, client_id: &String, filters: &Vec<String>)
        requires
            old(self).wf(),
        ensures
            final(self).wf(),
            forall|p: Seq<char>|
                #[trigger] path_listed(filters@, p) ==> !has_key(
                    ssv(final(self).subscriptions@),
                    (client_id@, p),
                ),
            forall|p: Seq<char>|
                !path_listed(filters@, p) ==> #[trigger] lookup(
                    ssv(final(self).subscriptions@),
                    (client_id@, p),
                ) == lookup(ssv(old(self).subscriptions@), (client_id@, p)),
            forall|k2: (Seq<char>, Seq<char>)|
                k2.0 != client_id@ ==> #[trigger] lookup(ssv(final(self).subscriptions@), k2)
                    == lookup(ssv(old(self).subscriptions@), k2),
    {
        remove_subscribe_paths(&mut self.subscriptions, client_id, filters)
    }

    /// Drops every subscription of a client.
    pub fn remove_client(&mut self, client_id: &String)
        requires
            old(self).wf(),
        ensures
            final(self).wf(),
            forall|p: Seq<char>|
                #![trigger has_key(ssv(final(self).subscriptions@), (client_id@, p))]
                !has_key(ssv(final(self).subscriptions@), (client_id@, p)),
            forall|k2: (Seq<char>, Seq<char>)|
                k2.0 != client_id@ ==> #[trigger] lookup(ssv(final(self).subscriptions@), k2)
                    == lookup(ssv(old(self).subscriptions@), k2),
    {
        remove_client_subscriptions(&mut self.subscriptions, client_id)
    }
}

} // verus!
