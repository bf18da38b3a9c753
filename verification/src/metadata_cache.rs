//! The broker's in-memory indices: cluster configuration, users, topics,
//! sessions, live connections, the per-client subscription replica and the
//! per-connection topic aliases.

use vstd::prelude::*;

use crate::kvlist::{has_key, lookup, uniq_keys};
use crate::store::{
    alias_find, alias_insert, skv_find, skv_insert, skv_remove, ssv, sv, ukv_find, ukv_insert,
    ukv_remove,
};
use crate::types::{ClusterInfo, ConnectionInfo, Session, Subscriber, TopicInfo, User};

verus! {

/// First connection bound to the given client identifier, if any.
pub open spec fn client_conn(s: Seq<(u64, ConnectionInfo)>, cid: Seq<char>) -> Option<u64>
    decreases s.len(),
{
    if s.len() == 0 {
        None
    } else if s[0].1.client_id@ == cid {
        Some(s[0].0)
    } else {
        client_conn(s.drop_first(), cid)
    }
}

/// No two live connections carry the same client identifier.
pub open spec fn distinct_clients(s: Seq<(u64, ConnectionInfo)>) -> bool {
    forall|i: int, j: int|
        0 <= i < s.len() && 0 <= j < s.len() && i != j ==> #[trigger] s[i].1.client_id@
            != #[trigger] s[j].1.client_id@
}

/// Every connection entry records its own key.
pub open spec fn conn_keys_consistent(s: Seq<(u64, ConnectionInfo)>) -> bool {
    forall|i: int| 0 <= i < s.len() ==> #[trigger] s[i].1.connect_id == s[i].0
}

/// `client_conn` is `None` exactly when no connection carries the client.
pub proof fn lemma_client_conn_none(s: Seq<(u64, ConnectionInfo)>, cid: Seq<char>)
    ensures
        (client_conn(s, cid) is None) <==> (forall|i: int|
            0 <= i < s.len() ==> #[trigger] s[i].1.client_id@ != cid),
    decreases s.len(),
{
    if s.len() > 0 {
        lemma_client_conn_none(s.drop_first(), cid);
        assert(forall|j: int|
            0 <= j < s.drop_first().len() ==> #[trigger] s.drop_first()[j] == s[j + 1]);
        if s[0].1.client_id@ != cid && client_conn(s.drop_first(), cid) is None {
            assert(forall|i: int|
                1 <= i < s.len() ==> #[trigger] s[i] == s.drop_first()[i - 1]);
        }
    }
}

/// When `client_conn` finds a key, some entry carries that key and client.
pub proof fn lemma_client_conn_some(s: Seq<(u64, ConnectionInfo)>, cid: Seq<char>)
    requires
        client_conn(s, cid) is Some,
    ensures
        exists|i: int|
            0 <= i < s.len() && #[trigger] s[i].0 == client_conn(s, cid)->Some_0
                && s[i].1.client_id@ == cid,
    decreases s.len(),
{
    if s[0].1.client_id@ == cid {
        assert(s[0].0 == client_conn(s, cid)->Some_0 && s[0].1.client_id@ == cid);
    } else {
        lemma_client_conn_some(s.drop_first(), cid);
        let i = choose|i: int|
            0 <= i < s.drop_first().len() && #[trigger] s.drop_first()[i].0 == client_conn(
                s.drop_first(),
                cid,
            )->Some_0 && s.drop_first()[i].1.client_id@ == cid;
        assert(s[i + 1] == s.drop_first()[i]);
    }
}

/// The connection a new CONNECT for this client supersedes: the one bound
/// to the same client under a different connection identifier.
pub open spec fn superseded(s: Seq<(u64, ConnectionInfo)>, cid: Seq<char>, connect_id: u64) -> Option<
    u64,
> {
    match client_conn(s, cid) {
        Some(k0) => if k0 != connect_id {
            Some(k0)
        } else {
            None
        },
        None => None,
    }
}

/// A connection index whose bindings all come from a well-formed one keeps
/// the per-client uniqueness and key consistency.
pub proof fn lemma_conn_wf_preserved(pre: Seq<(u64, ConnectionInfo)>, post: Seq<(u64, ConnectionInfo)>)
    requires
        uniq_keys(pre),
        uniq_keys(post),
        distinct_clients(pre),
        conn_keys_consistent(pre),
        forall|k: u64| has_key(post, k) ==> #[trigger] lookup(post, k) == lookup(pre, k),
    ensures
        distinct_clients(post),
        conn_keys_consistent(post),
{
    assert forall|i: int| 0 <= i < post.len() implies #[trigger] post[i].1.connect_id
        == post[i].0 by {
        crate::kvlist::lemma_lookup_at(post, i);
        crate::kvlist::lemma_lookup_present(pre, post[i].0);
    }
    assert forall|i: int, j: int|
        0 <= i < post.len() && 0 <= j < post.len() && i != j implies #[trigger] post[i].1.client_id@
        != #[trigger] post[j].1.client_id@ by {
        crate::kvlist::lemma_lookup_at(post, i);
        crate::kvlist::lemma_lookup_at(post, j);
        assert(post[i].0 != post[j].0);
        crate::kvlist::lemma_lookup_present(pre, post[i].0);
        crate::kvlist::lemma_lookup_present(pre, post[j].0);
        let oi = choose|oi: int|
            0 <= oi < pre.len() && #[trigger] pre[oi] == (post[i].0, post[i].1);
        let oj = choose|oj: int|
            0 <= oj < pre.len() && #[trigger] pre[oj] == (post[j].0, post[j].1);
        assert(oi != oj);
    }
}

/// In a well-formed cache at most one live connection carries any client
/// identifier: two entries with the same client are the same entry.
pub proof fn lemma_one_connection_per_client(cache: MetadataCache)
    requires
        cache.wf(),
    ensures
        forall|i: int, j: int|
            0 <= i < cache.connections@.len() && 0 <= j < cache.connections@.len()
                && #[trigger] cache.connections@[i].1.client_id@ == #[trigger] cache.connections@[j].1.client_id@
                ==> i == j,
{
}

/// The broker's shared metadata indices.
pub struct MetadataCache {
    pub cluster_info: ClusterInfo,
    /// Registered users, keyed by username.
    pub users: Vec<(String, User)>,
    /// Known topics, keyed by topic name.
    pub topics: Vec<(String, TopicInfo)>,
    /// Sessions, keyed by client identifier.
    pub sessions: Vec<(String, Session)>,
    /// Live connections, keyed by connection identifier.
    pub connections: Vec<(u64, ConnectionInfo)>,
    /// Replica of the subscriptions, keyed by client identifier and filter
    /// path, kept for constant-time cleanup.
    pub subscriptions: Vec<((String, String), Subscriber)>,
    /// Topic aliases, keyed by connection identifier and alias number.
    pub topic_alias: Vec<((u64, u16), String)>,
}

impl MetadataCache {
    /// All indices have unique keys; connection entries are internally
    /// consistent and no client holds two connections.
    pub open spec fn wf(self) -> bool {
        &&& uniq_keys(sv(self.users@))
        &&& uniq_keys(sv(self.topics@))
        &&& uniq_keys(sv(self.sessions@))
        &&& uniq_keys(self.connections@)
        &&& uniq_keys(ssv(self.subscriptions@))
        &&& uniq_keys(self.topic_alias@)
        &&& distinct_clients(self.connections@)
        &&& conn_keys_consistent(self.connections@)
    }

    pub fn new(cluster_name: String) -> (r: MetadataCache)
        ensures
            r.wf(),
            r.cluster_info.cluster_name == cluster_name,
            r.users@.len() == 0,
            r.topics@.len() == 0,
            r.sessions@.len() == 0,
            r.connections@.len() == 0,
            r.subscriptions@.len() == 0,
            r.topic_alias@.len() == 0,
    {
        let r = MetadataCache {
            cluster_info: ClusterInfo::new(cluster_name),
            users: Vec::new(),
            topics: Vec::new(),
            sessions: Vec::new(),
            connections: Vec::new(),
            subscriptions: Vec::new(),
            topic_alias: Vec::new(),
        };
        r
    }

    /// Replaces the cluster configuration.
    pub fn set_cluster_info(&mut self, cluster: ClusterInfo)
        requires
            old(self).wf(),
        ensures
            final(self).wf(),
            final(self).cluster_info == cluster,
            final(self).users == old(self).users,
            final(self).topics == old(self).topics,
            final(self).sessions == old(self).sessions,
            final(self).connections == old(self).connections,
            final(self).subscriptions == old(self).subscriptions,
            final(self).topic_alias == old(self).topic_alias,
    {
        self.cluster_info = cluster;
    }

    /// The current cluster configuration.
    pub fn get_cluster_info(&self) -> (r: &ClusterInfo)
        ensures
            *r == self.cluster_info,
    {
        &self.cluster_info
    }

    /// Registers or replaces a user.
    pub fn add_user(&mut self, user: User)
        requires
            old(self).wf(),
        ensures
            final(self).wf(),
            lookup(sv(final(self).users@), user.username@) == Some(user),
            forall|k: Seq<char>|
                k != user.username@ ==> #[trigger] lookup(sv(final(self).users@), k) == lookup(
                    sv(old(self).users@),
                    k,
                ),
            final(self).cluster_info == old(self).cluster_info,
            final(self).topics == old(self).topics,
            final(self).sessions == old(self).sessions,
            final(self).connections == old(self).connections,
            final(self).subscriptions == old(self).subscriptions,
            final(self).topic_alias == old(self).topic_alias,
    {
        let key = user.username.clone();
        skv_insert(&mut self.users, &key, user);
    }

    /// The user registered under this name, if any.
    pub fn get_user(&self, username: &String) -> (r: Option<&User>)
        ensures
            match r {
                Some(u) => lookup(sv(self.users@), username@) == Some(*u),
                None => !has_key(sv(self.users@), username@),
            },
    {
        match skv_find(&self.users, username) {
            Some(i) => Some(&self.users[i].1),
            None => None,
        }
    }

    /// Unregisters a user; idempotent.
    pub fn remove_user(&mut self, username: &String)
        requires
            old(self).wf(),
        ensures
            final(self).wf(),
            !has_key(sv(final(self).users@), username@),
            forall|k: Seq<char>|
                k != username@ ==> #[trigger] lookup(sv(final(self).users@), k) == lookup(
                    sv(old(self).users@),
                    k,
                ),
            final(self).cluster_info == old(self).cluster_info,
            final(self).topics == old(self).topics,
            final(self).sessions == old(self).sessions,
            final(self).connections == old(self).connections,
            final(self).subscriptions == old(self).subscriptions,
            final(self).topic_alias == old(self).topic_alias,
    {
        skv_remove(&mut self.users, username);
    }

    /// Records a topic under its name unless one is already known; the
    /// topic identifier of a known topic never changes.
    pub fn add_topic(&mut self, name: &String, topic: TopicInfo)
        requires
            old(self).wf(),
        ensures
            final(self).wf(),
            has_key(sv(old(self).topics@), name@) ==> final(self).topics == old(self).topics,
            !has_key(sv(old(self).topics@), name@) ==> lookup(sv(final(self).topics@), name@)
                == Some(topic),
            forall|k: Seq<char>|
                k != name@ ==> #[trigger] lookup(sv(final(self).topics@), k) == lookup(
                    sv(old(self).topics@),
                    k,
                ),
            final(self).cluster_info == old(self).cluster_info,
            final(self).users == old(self).users,
            final(self).sessions == old(self).sessions,
            final(self).connections == old(self).connections,
            final(self).subscriptions == old(self).subscriptions,
            final(self).topic_alias == old(self).topic_alias,
    {
        match skv_find(&self.topics, name) {
            Some(_) => {},
            None => {
                skv_insert(&mut self.topics, name, topic);
            },
        }
    }

    /// The topic known under this name, if any.
    pub fn get_topic(&self, name: &String) -> (r: Option<&TopicInfo>)
        ensures
            match r {
                Some(t) => lookup(sv(self.topics@), name@) == Some(*t),
                None => !has_key(sv(self.topics@), name@),
            },
    {
        match skv_find(&self.topics, name) {
            Some(i) => Some(&self.topics[i].1),
            None => None,
        }
    }

    /// Creates or replaces the session of a client.
    pub fn add_session(&mut self, client_id: &String, session: Session)
        requires
            old(self).wf(),
        ensures
            final(self).wf(),
            lookup(sv(final(self).sessions@), client_id@) == Some(session),
            forall|k: Seq<char>|
                k != client_id@ ==> #[trigger] lookup(sv(final(self).sessions@), k) == lookup(
                    sv(old(self).sessions@),
                    k,
                ),
            final(self).cluster_info == old(self).cluster_info,
            final(self).users == old(self).users,
            final(self).topics == old(self).topics,
            final(self).connections == old(self).connections,
            final(self).subscriptions == old(self).subscriptions,
            final(self).topic_alias == old(self).topic_alias,
    {
        skv_insert(&mut self.sessions, client_id, session);
    }

    /// The session of a client, if any.
    pub fn get_session(&self, client_id: &String) -> (r: Option<&Session>)
        ensures
            match r {
                Some(s) => lookup(sv(self.sessions@), client_id@) == Some(*s),
                None => !has_key(sv(self.sessions@), client_id@),
            },
    {
        match skv_find(&self.sessions, client_id) {
            Some(i) => Some(&self.sessions[i].1),
            None => None,
        }
    }

    /// Destroys the session of a client; idempotent.
    pub fn remove_session(&mut self, client_id: &String)
        requires
            old(self).wf(),
        ensures
            final(self).wf(),
            !has_key(sv(final(self).sessions@), client_id@),
            forall|k: Seq<char>|
                k != client_id@ ==> #[trigger] lookup(sv(final(self).sessions@), k) == lookup(
                    sv(old(self).sessions@),
                    k,
                ),
            final(self).cluster_info == old(self).cluster_info,
            final(self).users == old(self).users,
            final(self).topics == old(self).topics,
            final(self).connections == old(self).connections,
            final(self).subscriptions == old(self).subscriptions,
            final(self).topic_alias == old(self).topic_alias,
    {
        skv_remove(&mut self.sessions, client_id);
    }

    /// Removes and returns the session of a client, if any.
    pub fn take_session(&mut self, client_id: &String) -> (r: Option<Session>)
        requires
            old(self).wf(),
        ensures
            final(self).wf(),
            !has_key(sv(final(self).sessions@), client_id@),
            forall|k: Seq<char>|
                k != client_id@ ==> #[trigger] lookup(sv(final(self).sessions@), k) == lookup(
                    sv(old(self).sessions@),
                    k,
                ),
            match r {
                Some(s) => lookup(sv(old(self).sessions@), client_id@) == Some(s),
                None => !has_key(sv(old(self).sessions@), client_id@) && final(self).sessions
                    == old(self).sessions,
            },
            final(self).cluster_info == old(self).cluster_info,
            final(self).users == old(self).users,
            final(self).topics == old(self).topics,
            final(self).connections == old(self).connections,
            final(self).subscriptions == old(self).subscriptions,
            final(self).topic_alias == old(self).topic_alias,
    {
        match crate::store::skv_take(&mut self.sessions, client_id) {
            Some((_key, s)) => Some(s),
            None => None,
        }
    }

    /// Binds a new connection.  A live connection of the same client under
    /// another identifier is evicted first and returned, so that the caller
    /// can drop its heartbeat record.
    pub fn add_connection(&mut self, connect_id: u64, conn: ConnectionInfo) -> (evicted: Option<
        u64,
    >)
        requires
            old(self).wf(),
            conn.connect_id == connect_id,
        ensures
            final(self).wf(),
            lookup(final(self).connections@, connect_id) == Some(conn),
            evicted == superseded(old(self).connections@, conn.client_id@, connect_id),
            evicted matches Some(k0) ==> !has_key(final(self).connections@, k0),
            forall|k2: u64|
                k2 != connect_id && Some(k2) != evicted ==> #[trigger] lookup(
                    final(self).connections@,
                    k2,
                ) == lookup(old(self).connections@, k2),
            final(self).cluster_info == old(self).cluster_info,
            final(self).users == old(self).users,
            final(self).topics == old(self).topics,
            final(self).sessions == old(self).sessions,
            final(self).subscriptions == old(self).subscriptions,
            final(self).topic_alias == old(self).topic_alias,
    {
        let ghost pre = old(self).connections@;
        let ghost cidv = conn.client_id@;
        let cid = conn.client_id.clone();
        let prior = self.get_connect_id_by_client(&cid);
        let mut evicted: Option<u64> = None;
        if let Some(k0) = prior {
            if k0 != connect_id {
                ukv_remove(&mut self.connections, k0);
                evicted = Some(k0);
            }
        }
        let ghost mid = self.connections@;
        ukv_insert(&mut self.connections, connect_id, conn);
        proof {
            let post = self.connections@;
            // Bindings other than the new one and the evicted one are kept.
            assert forall|k2: u64| k2 != connect_id && Some(k2) != evicted implies #[trigger] lookup(
                post,
                k2,
            ) == lookup(pre, k2) by {}
            // Key consistency of the final index.
            assert forall|i: int| 0 <= i < post.len() implies #[trigger] post[i].1.connect_id
                == post[i].0 by {
                crate::kvlist::lemma_lookup_at(post, i);
                let k = post[i].0;
                if k != connect_id {
                    assert(Some(k) != evicted);
                    crate::kvlist::lemma_lookup_present(pre, k);
                }
            }
            // No client is bound twice in the final index.
            assert forall|i: int, j: int|
                0 <= i < post.len() && 0 <= j < post.len() && i
                    != j implies #[trigger] post[i].1.client_id@
                != #[trigger] post[j].1.client_id@ by {
                crate::kvlist::lemma_lookup_at(post, i);
                crate::kvlist::lemma_lookup_at(post, j);
                assert(post[i].0 != post[j].0);
                if post[i].1.client_id@ == post[j].1.client_id@ {
                    if post[i].0 != connect_id && post[j].0 != connect_id {
                        assert(Some(post[i].0) != evicted);
                        assert(Some(post[j].0) != evicted);
                        crate::kvlist::lemma_lookup_present(pre, post[i].0);
                        crate::kvlist::lemma_lookup_present(pre, post[j].0);
                        let oi = choose|oi: int|
                            0 <= oi < pre.len() && #[trigger] pre[oi] == (post[i].0, post[i].1);
                        let oj = choose|oj: int|
                            0 <= oj < pre.len() && #[trigger] pre[oj] == (post[j].0, post[j].1);
                        assert(oi != oj);
                        assert(false);
                    } else {
                        // One of the pair is the fresh binding; the other
                        // carries the same client and must be the entry the
                        // eviction removed, which is absent.
                        let (kn, ko) = if post[i].0 == connect_id {
                            (i, j)
                        } else {
                            (j, i)
                        };
                        assert(post[kn].1 == conn);
                        assert(post[ko].0 != connect_id);
                        assert(Some(post[ko].0) != evicted);
                        crate::kvlist::lemma_lookup_present(pre, post[ko].0);
                        let om = choose|om: int|
                            0 <= om < pre.len() && #[trigger] pre[om] == (post[ko].0, post[ko].1);
                        assert(pre[om].1.client_id@ == cidv);
                        lemma_client_conn_none(pre, cidv);
                        assert(client_conn(pre, cidv) is Some);
                        lemma_client_conn_some(pre, cidv);
                        let k0 = client_conn(pre, cidv)->Some_0;
                        let om2 = choose|om2: int|
                            0 <= om2 < pre.len() && #[trigger] pre[om2].0 == k0
                                && pre[om2].1.client_id@ == cidv;
                        assert(om == om2);
                        assert(post[ko].0 == k0);
                        assert(false);
                    }
                }
            }
        }
        evicted
    }

    /// Unbinds a connection and clears the session's binding to it;
    /// idempotent.
    pub fn remove_connection(&mut self, connect_id: u64, client_id: &String)
        requires
            old(self).wf(),
        ensures
            final(self).wf(),
            !has_key(final(self).connections@, connect_id),
            forall|k2: u64|
                k2 != connect_id ==> #[trigger] lookup(final(self).connections@, k2) == lookup(
                    old(self).connections@,
                    k2,
                ),
            forall|k: Seq<char>|
                k != client_id@ ==> #[trigger] lookup(sv(final(self).sessions@), k) == lookup(
                    sv(old(self).sessions@),
                    k,
                ),
            has_key(sv(old(self).sessions@), client_id@) ==> (lookup(
                sv(final(self).sessions@),
                client_id@,
            ) matches Some(s2) && {
                let s1 = lookup(sv(old(self).sessions@), client_id@)->Some_0;
                &&& s2.client_id == s1.client_id
                &&& s2.connect_id == None::<u64>
                &&& s2.session_expiry == s1.session_expiry
                &&& s2.last_will == s1.last_will
                &&& s2.last_will_properties == s1.last_will_properties
                &&& s2.created_at == s1.created_at
            }),
            !has_key(sv(old(self).sessions@), client_id@) ==> final(self).sessions == old(
                self,
            ).sessions,
            final(self).cluster_info == old(self).cluster_info,
            final(self).users == old(self).users,
            final(self).topics == old(self).topics,
            final(self).subscriptions == old(self).subscriptions,
            final(self).topic_alias == old(self).topic_alias,
    {
        let ghost pre = old(self).connections@;
        ukv_remove(&mut self.connections, connect_id);
        proof {
            let post = self.connections@;
            assert forall|k: u64| has_key(post, k) implies #[trigger] lookup(post, k) == lookup(
                pre,
                k,
            ) by {}
            lemma_conn_wf_preserved(pre, post);
        }
        match crate::store::skv_take(&mut self.sessions, client_id) {
            Some((key, mut s)) => {
                s.connect_id = None;
                skv_insert(&mut self.sessions, &key, s);
            },
            None => {},
        }
    }

    /// The live connection with this identifier, if any.
    pub fn get_connection(&self, connect_id: u64) -> (r: Option<&ConnectionInfo>)
        ensures
            match r {
                Some(c) => lookup(self.connections@, connect_id) == Some(*c),
                None => !has_key(self.connections@, connect_id),
            },
    {
        match ukv_find(&self.connections, connect_id) {
            Some(i) => Some(&self.connections[i].1),
            None => None,
        }
    }

    /// Stores the packet's valid filters in the per-client replica,
    /// replacing earlier entries with the same path.
    pub fn add_client_subscribe(
        &mut self,
        client_id: &String,
        protocol: crate::types::MqttProtocol,
        subscribe: &crate::packet::Subscribe,
        properties: &Option<crate::packet::SubscribeProperties>,
    )
        requires
            old(self).wf(),
        ensures
            final(self).wf(),
            forall|p: Seq<char>|
                match crate::subscribe_cache::last_valid_filter(subscribe.filters@, p) {
                    Some(f) => #[trigger] lookup(ssv(final(self).subscriptions@), (client_id@, p))
                        == Some(
                        crate::subscribe_cache::subscriber_of(*client_id, f, protocol, *properties),
                    ),
                    None => lookup(ssv(final(self).subscriptions@), (client_id@, p)) == lookup(
                        ssv(old(self).subscriptions@),
                        (client_id@, p),
                    ),
                },
            forall|k2: (Seq<char>, Seq<char>)|
                k2.0 != client_id@ ==> #[trigger] lookup(ssv(final(self).subscriptions@), k2)
                    == lookup(ssv(old(self).subscriptions@), k2),
            final(self).cluster_info == old(self).cluster_info,
            final(self).users == old(self).users,
            final(self).topics == old(self).topics,
            final(self).sessions == old(self).sessions,
            final(self).connections == old(self).connections,
            final(self).topic_alias == old(self).topic_alias,
    {
        crate::subscribe_cache::store_subscribe_filters(
            &mut self.subscriptions,
            client_id,
            protocol,
            subscribe,
            properties,
        )
    }

    /// Drops the listed filter paths of a client from the replica.
    pub fn remove_filter_by_pkid(&mut self, client_id: &String, filters: &Vec<String>)
        requires
            old(self).wf(),
        ensures
            final(self).wf(),
            forall|p: Seq<char>|
                #[trigger] crate::subscribe_cache::path_listed(filters@, p) ==> !has_key(
                    ssv(final(self).subscriptions@),
                    (client_id@, p),
                ),
            forall|p: Seq<char>|
                !crate::subscribe_cache::path_listed(filters@, p) ==> #[trigger] lookup(
                    ssv(final(self).subscriptions@),
                    (client_id@, p),
                ) == lookup(ssv(old(self).subscriptions@), (client_id@, p)),
            forall|k2: (Seq<char>, Seq<char>)|
                k2.0 != client_id@ ==> #[trigger] lookup(ssv(final(self).subscriptions@), k2)
                    == lookup(ssv(old(self).subscriptions@), k2),
            final(self).cluster_info == old(self).cluster_info,
            final(self).users == old(self).users,
            final(self).topics == old(self).topics,
            final(self).sessions == old(self).sessions,
            final(self).connections == old(self).connections,
            final(self).topic_alias == old(self).topic_alias,
    {
        crate::subscribe_cache::remove_subscribe_paths(&mut self.subscriptions, client_id, filters)
    }

    /// Records the topic name a connection binds to an alias.
    pub fn set_topic_alias(&mut self, connect_id: u64, alias: u16, topic_name: &String)
        requires
            old(self).wf(),
        ensures
            final(self).wf(),
            lookup(final(self).topic_alias@, (connect_id, alias)) matches Some(t) && t@
                == topic_name@,
            forall|k2: (u64, u16)|
                k2 != (connect_id, alias) ==> #[trigger] lookup(final(self).topic_alias@, k2)
                    == lookup(old(self).topic_alias@, k2),
            final(self).cluster_info == old(self).cluster_info,
            final(self).users == old(self).users,
            final(self).topics == old(self).topics,
            final(self).sessions == old(self).sessions,
            final(self).connections == old(self).connections,
            final(self).subscriptions == old(self).subscriptions,
    {
        alias_insert(&mut self.topic_alias, connect_id, alias, topic_name.clone());
    }

    /// The topic name a connection bound to an alias, if any.
    pub fn get_topic_alias(&self, connect_id: u64, alias: u16) -> (r: Option<String>)
        ensures
            match r {
                Some(t) => lookup(self.topic_alias@, (connect_id, alias)) matches Some(t2) && t2@
                    == t@,
                None => !has_key(self.topic_alias@, (connect_id, alias)),
            },
    {
        match alias_find(&self.topic_alias, connect_id, alias) {
            Some(i) => Some(self.topic_alias[i].1.clone()),
            None => None,
        }
    }

    /// The connection identifier currently bound to a client, if any.
    pub fn get_connect_id_by_client(&self, client_id: &String) -> (r: Option<u64>)
        ensures
            r == client_conn(self.connections@, client_id@),
    {
        let v = &self.connections;
        proof {
            assert(v@.skip(0) =~= v@);
        }
        let mut i: usize = 0;
        while i < v.len()
            invariant
                i <= v@.len(),
                v == &self.connections,
                client_conn(v@, client_id@) == client_conn(v@.skip(i as int), client_id@),
            decreases v@.len() - i,
        {
            proof {
                assert(v@.skip(i as int)[0] == v@[i as int]);
                assert(v@.skip(i as int).drop_first() =~= v@.skip(i as int + 1));
            }
            if v[i].1.client_id == *client_id {
                return Some(v[i].0);
            }
            i = i + 1;
        }
        proof {
            assert(v@.skip(v@.len() as int) =~= Seq::<(u64, ConnectionInfo)>::empty());
        }
        None
    }
}

} // verus!
