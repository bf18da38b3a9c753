//! The MQTT v5 packet handler: one method per inbound packet kind, each
//! mutating the caches and returning the reply the protocol demands.

use vstd::prelude::*;

use crate::ack_builder::{
    distinct, packet_connect_fail, packet_connect_success, ping_resp, pub_ack, pub_ack_fail,
    pub_rec, pub_rel, publish_comp_fail, publish_comp_success, sub_ack, unsub_ack,
};
use crate::ack_manager::{AckManager, AckWaiter};
use crate::heartbeat_cache::{hb_lookup, HeartbeatCache};
use crate::idempotency::{pkid_view, QosMemory};
use crate::kvlist::{has_key, lookup};
use crate::metadata_cache::{superseded, MetadataCache};
use crate::packet::{
    ConnAck, Connect, ConnectProperties, ConnectReturnCode, DisconnectPacket,
    DisconnectReasonCode, LastWill, LastWillProperties, Login, MqttPacket, PingReq, PubAck,
    PubAckReason, PubComp, PubCompReason, PubRec, PubRel, PubRelReason, Publish,
    PublishProperties, QoS, Subscribe, SubscribeProperties, Unsubscribe,
};
use crate::session::{
    auth_ok, authentication_login, auto_client_id, build_session_expiry, client_id_validator,
    create_connection, get_client_id, negotiated_expiry, negotiated_packet_size,
    resolved_client_id, valid_client_id,
};
use crate::storage::{MessageLog, RetainedStore};
use crate::store::{cpv, ssv, sv};
use crate::subscribe_cache::SubscribeCache;
use crate::types::{
    AckPackageData, AckPackageType, ConnectionLiveTime, MqttProtocol, ResponsePackage, Session,
};

verus! {

/// The broker core: every cache, the storage, and the queue the push
/// pipeline reads.
pub struct Mqtt5Service {
    pub metadata_cache: MetadataCache,
    pub heartbeat_manager: HeartbeatCache,
    pub idempotent_manager: QosMemory,
    pub ack_manager: AckManager,
    pub subscribe_cache: SubscribeCache,
    pub message_storage: MessageLog,
    pub topic_storage: RetainedStore,
    /// Packets queued for delivery by the push pipeline.
    pub response_queue: Vec<ResponsePackage>,
    /// Source of broker-assigned client identifiers.
    pub client_id_counter: u64,
    /// Source of topic identifiers.
    pub topic_id_counter: u64,
}

/// The DISCONNECT sent when a packet names an unknown connection.
pub open spec fn unknown_connection_reply(r: MqttPacket) -> bool {
    r matches MqttPacket::Disconnect(d) && d.code == DisconnectReasonCode::UnspecifiedError
        && (d.reason_string matches Some(m) && m@ == "not found connection in cache"@)
}


/// The alias a publish carries, if any.
pub open spec fn alias_of(props: Option<PublishProperties>) -> Option<u16> {
    match props {
        Some(pp) => pp.topic_alias,
        None => None,
    }
}

/// The topic name a publish resolves to: its own, or the one its alias is
/// bound to.
pub open spec fn resolve_topic_name(
    cache: MetadataCache,
    connect_id: u64,
    publish: Publish,
    props: Option<PublishProperties>,
) -> Option<Seq<char>> {
    if publish.topic@.len() > 0 {
        Some(publish.topic@)
    } else {
        match alias_of(props) {
            Some(a) => match lookup(cache.topic_alias@, (connect_id, a)) {
                Some(t) => Some(t@),
                None => None,
            },
            None => None,
        }
    }
}

/// The identifier a publish's topic resolves to: the known one, or the next
/// counter value for a topic seen first here.
pub open spec fn resolved_topic_id(cache: MetadataCache, counter: u64, name: Seq<char>) -> u64 {
    match lookup(sv(cache.topics@), name) {
        Some(t) => t.topic_id,
        None => counter,
    }
}

/// What a rejected publish leaves untouched: everything except the topic
/// index, the alias table and the topic counter, which may already have
/// moved during resolution.
pub open spec fn publish_rejected_frame(pre: Mqtt5Service, post: Mqtt5Service) -> bool {
    &&& post.metadata_cache.cluster_info == pre.metadata_cache.cluster_info
    &&& post.metadata_cache.users == pre.metadata_cache.users
    &&& post.metadata_cache.sessions == pre.metadata_cache.sessions
    &&& post.metadata_cache.connections == pre.metadata_cache.connections
    &&& post.metadata_cache.subscriptions == pre.metadata_cache.subscriptions
    &&& post.heartbeat_manager == pre.heartbeat_manager
    &&& post.idempotent_manager == pre.idempotent_manager
    &&& post.ack_manager == pre.ack_manager
    &&& post.subscribe_cache == pre.subscribe_cache
    &&& post.message_storage == pre.message_storage
    &&& post.topic_storage == pre.topic_storage
    &&& post.response_queue == pre.response_queue
    &&& post.client_id_counter == pre.client_id_counter
}

/// What an accepted publish leaves untouched.
pub open spec fn publish_accepted_frame(pre: Mqtt5Service, post: Mqtt5Service) -> bool {
    &&& post.metadata_cache.cluster_info == pre.metadata_cache.cluster_info
    &&& post.metadata_cache.users == pre.metadata_cache.users
    &&& post.metadata_cache.sessions == pre.metadata_cache.sessions
    &&& post.metadata_cache.connections == pre.metadata_cache.connections
    &&& post.metadata_cache.subscriptions == pre.metadata_cache.subscriptions
    &&& post.heartbeat_manager == pre.heartbeat_manager
    &&& post.ack_manager == pre.ack_manager
    &&& post.subscribe_cache == pre.subscribe_cache
    &&& post.response_queue == pre.response_queue
    &&& post.client_id_counter == pre.client_id_counter
    &&& post.idempotent_manager.sub_pkid == pre.idempotent_manager.sub_pkid
}

/// How the topic index moves during publish resolution: the resolved name
/// gets an entry with a fresh identifier when it had none.
pub open spec fn topics_after_publish(pre: Mqtt5Service, post: Mqtt5Service, name: Seq<char>) -> bool {
    &&& !has_key(sv(pre.metadata_cache.topics@), name) ==> (lookup(
        sv(post.metadata_cache.topics@),
        name,
    ) matches Some(t) && t.topic_id == pre.topic_id_counter && t.topic_name@ == name)
        && post.topic_id_counter == pre.topic_id_counter + 1
    &&& has_key(sv(pre.metadata_cache.topics@), name) ==> post.metadata_cache.topics
        == pre.metadata_cache.topics && post.topic_id_counter == pre.topic_id_counter
    &&& forall|k: Seq<char>|
        k != name ==> #[trigger] lookup(sv(post.metadata_cache.topics@), k) == lookup(
            sv(pre.metadata_cache.topics@),
            k,
        )
}

/// How the alias table moves during publish resolution: a publish that
/// carries both a topic and an alias binds the alias; all else stays.
pub open spec fn aliases_after_publish(
    pre: Mqtt5Service,
    post: Mqtt5Service,
    connect_id: u64,
    publish: Publish,
    props: Option<PublishProperties>,
) -> bool {
    if publish.topic@.len() > 0 && alias_of(props) is Some {
        &&& (lookup(
            post.metadata_cache.topic_alias@,
            (connect_id, alias_of(props)->Some_0),
        ) matches Some(t) && t@ == publish.topic@)
        &&& forall|k2: (u64, u16)|
            k2 != (connect_id, alias_of(props)->Some_0) ==> #[trigger] lookup(
                post.metadata_cache.topic_alias@,
                k2,
            ) == lookup(pre.metadata_cache.topic_alias@, k2)
    } else {
        post.metadata_cache.topic_alias == pre.metadata_cache.topic_alias
    }
}


/// The SUBACK reason code one filter earns: invalid paths are refused, the
/// rest are granted the lesser of the requested and the cluster QoS.
pub open spec fn code_of(f: crate::packet::SubscribeFilter, max_qos: QoS) -> crate::packet::SubscribeReasonCode {
    if !crate::topic_filter::valid_filter(f.path@) {
        crate::packet::SubscribeReasonCode::TopicFilterInvalid
    } else {
        let lvl = if crate::packet::qos_level(max_qos) <= crate::packet::qos_level(f.qos) {
            crate::packet::qos_level(max_qos)
        } else {
            crate::packet::qos_level(f.qos)
        };
        if lvl == 0 {
            crate::packet::SubscribeReasonCode::QoS0
        } else if lvl == 1 {
            crate::packet::SubscribeReasonCode::QoS1
        } else {
            crate::packet::SubscribeReasonCode::QoS2
        }
    }
}

/// The SUBACK reason codes of a packet's filters, in input order.
pub open spec fn reason_codes_of(
    fs: Seq<crate::packet::SubscribeFilter>,
    max_qos: QoS,
) -> Seq<crate::packet::SubscribeReasonCode> {
    fs.map_values(|f: crate::packet::SubscribeFilter| code_of(f, max_qos))
}

/// Whether any filter of the packet is grammatical.
pub open spec fn any_valid_filter(fs: Seq<crate::packet::SubscribeFilter>) -> bool {
    exists|i: int| 0 <= i < fs.len() && crate::topic_filter::valid_filter(#[trigger] fs[i].path@)
}

/// Every granted QoS in the reason codes stays at or below the cluster's
/// maximum.
pub proof fn lemma_granted_qos_bounded(fs: Seq<crate::packet::SubscribeFilter>, max_qos: QoS)
    ensures
        forall|i: int|
            0 <= i < fs.len() ==> match #[trigger] reason_codes_of(fs, max_qos)[i] {
                crate::packet::SubscribeReasonCode::QoS0 => 0 <= crate::packet::qos_level(max_qos),
                crate::packet::SubscribeReasonCode::QoS1 => 1 <= crate::packet::qos_level(max_qos),
                crate::packet::SubscribeReasonCode::QoS2 => 2 <= crate::packet::qos_level(max_qos),
                _ => true,
            },
{
}

/// A granted SUBACK answers every filter: its reason codes line up with the
/// packet's filters, one each, in input order.
pub proof fn lemma_suback_code_per_filter(fs: Seq<crate::packet::SubscribeFilter>, max_qos: QoS)
    ensures
        reason_codes_of(fs, max_qos).len() == fs.len(),
        forall|i: int|
            0 <= i < fs.len() ==> #[trigger] reason_codes_of(fs, max_qos)[i] == code_of(
                fs[i],
                max_qos,
            ),
{
}

/// The observable content of a queued push event: its connection and, for
/// a publish, the topic, payload, QoS and retain flag.
pub open spec fn rp_view(p: ResponsePackage) -> (u64, Option<(Seq<char>, Seq<u8>, QoS, bool)>) {
    (
        p.connect_id,
        match p.packet {
            MqttPacket::Publish(x) => Some((x.topic@, x.payload@, x.qos, x.retain)),
            _ => None,
        },
    )
}

/// The observable content of the push queue.
pub open spec fn rp_views(q: Seq<ResponsePackage>) -> Seq<
    (u64, Option<(Seq<char>, Seq<u8>, QoS, bool)>),
> {
    q.map_values(|p: ResponsePackage| rp_view(p))
}

/// The retained messages one filter replays: for each known topic, in index
/// order, the retained message of every topic the filter matches.
pub open spec fn replay_one(
    topics: Seq<(String, crate::types::TopicInfo)>,
    ret: Seq<(u64, crate::types::MqttMessage)>,
    f: crate::packet::SubscribeFilter,
    connect_id: u64,
) -> Seq<(u64, Option<(Seq<char>, Seq<u8>, QoS, bool)>)>
    decreases topics.len(),
{
    if topics.len() == 0 {
        Seq::empty()
    } else {
        let rest = replay_one(topics.drop_first(), ret, f, connect_id);
        if crate::topic_filter::filter_matches(topics[0].0@, f.path@) && lookup(
            ret,
            topics[0].1.topic_id,
        ) is Some {
            let m = lookup(ret, topics[0].1.topic_id)->Some_0;
            seq![(connect_id, Some((m.topic@, m.payload@, m.qos, true)))] + rest
        } else {
            rest
        }
    }
}

/// The retained messages a whole SUBSCRIBE replays: each grammatical
/// filter's replay, in filter order.
pub open spec fn replay_views(
    topics: Seq<(String, crate::types::TopicInfo)>,
    ret: Seq<(u64, crate::types::MqttMessage)>,
    fs: Seq<crate::packet::SubscribeFilter>,
    connect_id: u64,
) -> Seq<(u64, Option<(Seq<char>, Seq<u8>, QoS, bool)>)>
    decreases fs.len(),
{
    if fs.len() == 0 {
        Seq::empty()
    } else {
        replay_views(topics, ret, fs.drop_last(), connect_id) + (if crate::topic_filter::valid_filter(
            fs.last().path@,
        ) {
            replay_one(topics, ret, fs.last(), connect_id)
        } else {
            Seq::empty()
        })
    }
}

impl Mqtt5Service {
    /// Every component is well formed.
    pub open spec fn wf(self) -> bool {
        &&& self.metadata_cache.wf()
        &&& self.heartbeat_manager.wf()
        &&& self.idempotent_manager.wf()
        &&& self.ack_manager.wf()
        &&& self.subscribe_cache.wf()
        &&& self.message_storage.wf()
        &&& self.topic_storage.wf()
    }

    pub fn new(
        metadata_cache: MetadataCache,
        heartbeat_manager: HeartbeatCache,
        message_storage: MessageLog,
        topic_storage: RetainedStore,
        subscribe_cache: SubscribeCache,
        ack_manager: AckManager,
        idempotent_manager: QosMemory,
    ) -> (r: Mqtt5Service)
        requires
            metadata_cache.wf(),
            heartbeat_manager.wf(),
            message_storage.wf(),
            topic_storage.wf(),
            subscribe_cache.wf(),
            ack_manager.wf(),
            idempotent_manager.wf(),
        ensures
            r.wf(),
            r.metadata_cache == metadata_cache,
            r.heartbeat_manager == heartbeat_manager,
            r.message_storage == message_storage,
            r.topic_storage == topic_storage,
            r.subscribe_cache == subscribe_cache,
            r.ack_manager == ack_manager,
            r.idempotent_manager == idempotent_manager,
            r.response_queue@.len() == 0,
            r.client_id_counter == 0,
            r.topic_id_counter == 0,
    {
        Mqtt5Service {
            metadata_cache,
            heartbeat_manager,
            idempotent_manager,
            ack_manager,
            subscribe_cache,
            message_storage,
            topic_storage,
            response_queue: Vec::new(),
            client_id_counter: 0,
            topic_id_counter: 0,
        }
    }

    /// Handles CONNECT: authenticates, resolves the client identifier,
    /// builds or resumes the session, binds the connection (superseding a
    /// prior one of the same client), records the heartbeat, and replies
    /// with CONNACK.
    pub fn connect(
        &mut self,
        connect_id: u64,
        connect: Connect,
        connect_properties: Option<ConnectProperties>,
        last_will: Option<LastWill>,
        last_will_properties: Option<LastWillProperties>,
        login: Option<Login>,
        now: u64,
    ) -> (r: MqttPacket)
        requires
            old(self).wf(),
            old(self).client_id_counter < u64::MAX,
        ensures
            final(self).wf(),
            // Authentication failure: CONNACK NotAuthorized, no state change.
            !auth_ok(old(self).metadata_cache, login) ==> *final(self) == *old(self) && r
                == MqttPacket::ConnAck(
                ConnAck {
                    code: ConnectReturnCode::NotAuthorized,
                    session_present: false,
                    assigned_client_id: None,
                    session_expiry_interval: None,
                    reason_string: None,
                },
            ),
            // Unusable client identifier: CONNACK BadClientId, no state change.
            auth_ok(old(self).metadata_cache, login) && !valid_client_id(
                resolved_client_id(connect.client_id@, old(self).client_id_counter),
            ) ==> *final(self) == *old(self) && r == MqttPacket::ConnAck(
                ConnAck {
                    code: ConnectReturnCode::BadClientId,
                    session_present: false,
                    assigned_client_id: None,
                    session_expiry_interval: None,
                    reason_string: None,
                },
            ),
            // Success.
            (auth_ok(old(self).metadata_cache, login) && valid_client_id(
                resolved_client_id(connect.client_id@, old(self).client_id_counter),
            )) ==> {
                let cid = resolved_client_id(connect.client_id@, old(self).client_id_counter);
                let minted = connect.client_id@.len() == 0;
                let expiry = negotiated_expiry(
                    connect_properties,
                    old(self).metadata_cache.cluster_info,
                );
                let had = lookup(sv(old(self).metadata_cache.sessions@), cid);
                let reuse = had is Some && !connect.clean_start;
                let evicted = superseded(old(self).metadata_cache.connections@, cid, connect_id);
                &&& final(self).client_id_counter == old(self).client_id_counter + (if minted {
                    1int
                } else {
                    0int
                })
                // The session is bound to this connection.
                &&& lookup(sv(final(self).metadata_cache.sessions@), cid) matches Some(s)
                    && s.client_id@ == cid && s.connect_id == Some(connect_id)
                    && s.session_expiry == expiry && s.last_will == last_will
                    && s.last_will_properties == last_will_properties && s.created_at == (
                if reuse {
                    had->Some_0.created_at
                } else {
                    now
                })
                &&& forall|k: Seq<char>|
                    k != cid ==> #[trigger] lookup(sv(final(self).metadata_cache.sessions@), k)
                        == lookup(sv(old(self).metadata_cache.sessions@), k)
                // The connection is bound; a superseded one is evicted first.
                &&& lookup(final(self).metadata_cache.connections@, connect_id) matches Some(c)
                    && c.connect_id == connect_id && c.client_id@ == cid && c.keep_alive
                    == connect.keep_alive && c.max_packet_size == negotiated_packet_size(
                    connect_properties,
                    old(self).metadata_cache.cluster_info,
                ) && c.protocol == MqttProtocol::Mqtt5
                &&& evicted matches Some(k0) ==> !has_key(
                    final(self).metadata_cache.connections@,
                    k0,
                ) && hb_lookup(final(self).heartbeat_manager, k0) is None
                &&& forall|k2: u64|
                    k2 != connect_id && Some(k2) != evicted ==> #[trigger] lookup(
                        final(self).metadata_cache.connections@,
                        k2,
                    ) == lookup(old(self).metadata_cache.connections@, k2)
                // The heartbeat is recorded.
                &&& hb_lookup(final(self).heartbeat_manager, connect_id) == Some(
                    ConnectionLiveTime {
                        protocol: MqttProtocol::Mqtt5,
                        keep_live: connect.keep_alive,
                        heartbeat: now,
                    },
                )
                &&& forall|c2: u64|
                    c2 != connect_id && Some(c2) != evicted ==> #[trigger] hb_lookup(
                        final(self).heartbeat_manager,
                        c2,
                    ) == hb_lookup(old(self).heartbeat_manager, c2)
                // CONNACK success; the session is present exactly when resumed.
                &&& r matches MqttPacket::ConnAck(a) && a.code == ConnectReturnCode::Success
                    && a.session_present == reuse && a.session_expiry_interval == Some(expiry)
                    && a.reason_string is None && (minted ==> (a.assigned_client_id matches Some(
                    acid,
                ) && acid@ == auto_client_id(old(self).client_id_counter))) && (!minted
                    ==> a.assigned_client_id is None)
                // Nothing else moves.
                &&& final(self).metadata_cache.cluster_info == old(self).metadata_cache.cluster_info
                &&& final(self).metadata_cache.users == old(self).metadata_cache.users
                &&& final(self).metadata_cache.topics == old(self).metadata_cache.topics
                &&& final(self).metadata_cache.subscriptions == old(self).metadata_cache.subscriptions
                &&& final(self).metadata_cache.topic_alias == old(self).metadata_cache.topic_alias
                &&& final(self).idempotent_manager == old(self).idempotent_manager
                &&& final(self).ack_manager == old(self).ack_manager
                &&& final(self).subscribe_cache == old(self).subscribe_cache
                &&& final(self).message_storage == old(self).message_storage
                &&& final(self).topic_storage == old(self).topic_storage
                &&& final(self).response_queue == old(self).response_queue
                &&& final(self).topic_id_counter == old(self).topic_id_counter
            },
    {
        if !authentication_login(&self.metadata_cache, &login) {
            return packet_connect_fail(ConnectReturnCode::NotAuthorized, None);
        }
        let (client_id, new_client_id) = get_client_id(
            connect.client_id.clone(),
            self.client_id_counter,
        );
        if !client_id_validator(&client_id) {
            return packet_connect_fail(ConnectReturnCode::BadClientId, None);
        }
        if new_client_id {
            self.client_id_counter = self.client_id_counter + 1;
        }
        let session_expiry = build_session_expiry(
            &connect_properties,
            &self.metadata_cache.cluster_info,
        );
        let taken = self.metadata_cache.take_session(&client_id);
        let (session, new_session) = match taken {
            Some(mut s) => {
                if !connect.clean_start {
                    s.client_id = client_id.clone();
                    s.connect_id = Some(connect_id);
                    s.session_expiry = session_expiry;
                    s.last_will = last_will;
                    s.last_will_properties = last_will_properties;
                    (s, false)
                } else {
                    (
                        Session {
                            client_id: client_id.clone(),
                            connect_id: Some(connect_id),
                            session_expiry,
                            last_will,
                            last_will_properties,
                            created_at: now,
                        },
                        true,
                    )
                }
            },
            None => (
                Session {
                    client_id: client_id.clone(),
                    connect_id: Some(connect_id),
                    session_expiry,
                    last_will,
                    last_will_properties,
                    created_at: now,
                },
                true,
            ),
        };
        self.metadata_cache.add_session(&client_id, session);
        let connection = create_connection(
            connect_id,
            &client_id,
            &self.metadata_cache.cluster_info,
            &connect,
            &connect_properties,
        );
        let keep_alive = connection.keep_alive;
        let evicted = self.metadata_cache.add_connection(connect_id, connection);
        if let Some(k0) = evicted {
            self.heartbeat_manager.remove_connection(k0);
        }
        self.heartbeat_manager.report_heartbeat(
            connect_id,
            ConnectionLiveTime {
                protocol: MqttProtocol::Mqtt5,
                keep_live: keep_alive,
                heartbeat: now,
            },
        );
        let assigned_client_id = if new_client_id {
            Some(client_id)
        } else {
            None
        };
        packet_connect_success(assigned_client_id, session_expiry, !new_session)
    }

    /// Handles PINGREQ: refreshes the heartbeat of a known connection, or
    /// replies DISCONNECT for an unknown one.
    pub fn ping(&mut self, connect_id: u64, _ping: PingReq, now: u64) -> (r: MqttPacket)
        requires
            old(self).wf(),
        ensures
            final(self).wf(),
            !has_key(old(self).metadata_cache.connections@, connect_id) ==> *final(self) == *old(self) && unknown_connection_reply(r),
            has_key(old(self).metadata_cache.connections@, connect_id) ==> {
                &&& r == MqttPacket::PingResp(crate::packet::PingResp {  })
                &&& hb_lookup(final(self).heartbeat_manager, connect_id) == Some(
                    ConnectionLiveTime {
                        protocol: MqttProtocol::Mqtt5,
                        keep_live: lookup(
                            old(self).metadata_cache.connections@,
                            connect_id,
                        )->Some_0.keep_alive,
                        heartbeat: now,
                    },
                )
                &&& forall|c2: u64|
                    c2 != connect_id ==> #[trigger] hb_lookup(final(self).heartbeat_manager, c2)
                        == hb_lookup(old(self).heartbeat_manager, c2)
                &&& final(self).metadata_cache == old(self).metadata_cache
                &&& final(self).idempotent_manager == old(self).idempotent_manager
                &&& final(self).ack_manager == old(self).ack_manager
                &&& final(self).subscribe_cache == old(self).subscribe_cache
                &&& final(self).message_storage == old(self).message_storage
                &&& final(self).topic_storage == old(self).topic_storage
                &&& final(self).response_queue == old(self).response_queue
                &&& final(self).client_id_counter == old(self).client_id_counter
                &&& final(self).topic_id_counter == old(self).topic_id_counter
            },
    {
        let keep_alive = match self.metadata_cache.get_connection(connect_id) {
            Some(c) => c.keep_alive,
            None => {
                return distinct(
                    DisconnectReasonCode::UnspecifiedError,
                    Some(String::from_str("not found connection in cache")),
                );
            },
        };
        self.heartbeat_manager.report_heartbeat(
            connect_id,
            ConnectionLiveTime {
                protocol: MqttProtocol::Mqtt5,
                keep_live: keep_alive,
                heartbeat: now,
            },
        );
        ping_resp()
    }

    /// Handles an inbound DISCONNECT: tears the connection down.  An
    /// unknown connection gets no reply.
    pub fn disconnect(
        &mut self,
        connect_id: u64,
        _disconnect: DisconnectPacket,
    ) -> (r: Option<MqttPacket>)
        requires
            old(self).wf(),
        ensures
            final(self).wf(),
            !has_key(old(self).metadata_cache.connections@, connect_id) ==> *final(self) == *old(self) && r is None,
            has_key(old(self).metadata_cache.connections@, connect_id) ==> {
                let cid = lookup(old(self).metadata_cache.connections@, connect_id)->Some_0
                    .client_id@;
                &&& r == Some(
                    MqttPacket::Disconnect(
                        DisconnectPacket {
                            code: DisconnectReasonCode::NormalDisconnection,
                            reason_string: None,
                        },
                    ),
                )
                // The connection is gone; other connections stay.
                &&& !has_key(final(self).metadata_cache.connections@, connect_id)
                &&& forall|k2: u64|
                    k2 != connect_id ==> #[trigger] lookup(
                        final(self).metadata_cache.connections@,
                        k2,
                    ) == lookup(old(self).metadata_cache.connections@, k2)
                // The session stays but is no longer bound to a connection.
                &&& has_key(sv(old(self).metadata_cache.sessions@), cid) ==> (lookup(
                    sv(final(self).metadata_cache.sessions@),
                    cid,
                ) matches Some(s2) && s2.connect_id == None::<u64>)
                // The client's subscriptions are dropped from the push index.
                &&& forall|p: Seq<char>|
                    #![trigger has_key(ssv(final(self).subscribe_cache.subscriptions@), (cid, p))]
                    !has_key(ssv(final(self).subscribe_cache.subscriptions@), (cid, p))
                &&& forall|k2: (Seq<char>, Seq<char>)|
                    k2.0 != cid ==> #[trigger] lookup(
                        ssv(final(self).subscribe_cache.subscriptions@),
                        k2,
                    ) == lookup(ssv(old(self).subscribe_cache.subscriptions@), k2)
                // The heartbeat record is gone.
                &&& hb_lookup(final(self).heartbeat_manager, connect_id) is None
                &&& forall|c2: u64|
                    c2 != connect_id ==> #[trigger] hb_lookup(final(self).heartbeat_manager, c2)
                        == hb_lookup(old(self).heartbeat_manager, c2)
                &&& final(self).metadata_cache.cluster_info == old(self).metadata_cache.cluster_info
                &&& final(self).metadata_cache.users == old(self).metadata_cache.users
                &&& final(self).metadata_cache.topics == old(self).metadata_cache.topics
                &&& final(self).metadata_cache.subscriptions == old(self).metadata_cache.subscriptions
                &&& final(self).metadata_cache.topic_alias == old(self).metadata_cache.topic_alias
                &&& final(self).idempotent_manager == old(self).idempotent_manager
                &&& final(self).ack_manager == old(self).ack_manager
                &&& final(self).message_storage == old(self).message_storage
                &&& final(self).topic_storage == old(self).topic_storage
                &&& final(self).response_queue == old(self).response_queue
                &&& final(self).client_id_counter == old(self).client_id_counter
                &&& final(self).topic_id_counter == old(self).topic_id_counter
            },
    {
        let client_id = match self.metadata_cache.get_connection(connect_id) {
            Some(c) => c.client_id.clone(),
            None => {
                return None;
            },
        };
        self.metadata_cache.remove_connection(connect_id, &client_id);
        self.subscribe_cache.remove_client(&client_id);
        self.heartbeat_manager.remove_connection(connect_id);
        Some(distinct(DisconnectReasonCode::NormalDisconnection, None))
    }

    /// Handles an inbound PUBACK for a broker-initiated QoS 1 delivery:
    /// forwards it to the waiting push worker.  Never replies.
    pub fn publish_ack(&mut self, connect_id: u64, pub_ack_packet: PubAck) -> (r: Option<
        MqttPacket,
    >)
        requires
            old(self).wf(),
        ensures
            final(self).wf(),
            r is None,
            final(self).metadata_cache == old(self).metadata_cache,
            !has_key(old(self).metadata_cache.connections@, connect_id) ==> *final(self) == *old(self),
            has_key(old(self).metadata_cache.connections@, connect_id) ==> {
                let cid = lookup(old(self).metadata_cache.connections@, connect_id)->Some_0
                    .client_id@;
                let key = (cid, pub_ack_packet.pkid);
                &&& has_key(cpv(old(self).ack_manager.waiters@), key) ==> lookup(
                    cpv(final(self).ack_manager.waiters@),
                    key,
                ) == Some(
                    AckWaiter {
                        delivered: Some(
                            AckPackageData {
                                ack_type: AckPackageType::PubAck,
                                pkid: pub_ack_packet.pkid,
                            },
                        ),
                    },
                )
                &&& !has_key(cpv(old(self).ack_manager.waiters@), key) ==> *final(self) == *old(self)
                &&& forall|k2: (Seq<char>, u16)|
                    k2 != key ==> #[trigger] lookup(cpv(final(self).ack_manager.waiters@), k2)
                        == lookup(cpv(old(self).ack_manager.waiters@), k2)
                &&& final(self).heartbeat_manager == old(self).heartbeat_manager
                &&& final(self).idempotent_manager == old(self).idempotent_manager
                &&& final(self).subscribe_cache == old(self).subscribe_cache
                &&& final(self).message_storage == old(self).message_storage
                &&& final(self).topic_storage == old(self).topic_storage
                &&& final(self).response_queue == old(self).response_queue
                &&& final(self).client_id_counter == old(self).client_id_counter
                &&& final(self).topic_id_counter == old(self).topic_id_counter
            },
    {
        let client_id = match self.metadata_cache.get_connection(connect_id) {
            Some(c) => c.client_id.clone(),
            None => {
                return None;
            },
        };
        let _ = self.ack_manager.complete(
            &client_id,
            pub_ack_packet.pkid,
            AckPackageData { ack_type: AckPackageType::PubAck, pkid: pub_ack_packet.pkid },
        );
        None
    }

    /// Handles an inbound PUBREC for a broker-initiated QoS 2 delivery:
    /// forwards it to the waiting push worker, or answers a stale PUBREC
    /// with PUBREL so the peer can finish its handshake.
    pub fn publish_rec(&mut self, connect_id: u64, pub_rec_packet: PubRec) -> (r: Option<
        MqttPacket,
    >)
        requires
            old(self).wf(),
        ensures
            final(self).wf(),
            final(self).metadata_cache == old(self).metadata_cache,
            !has_key(old(self).metadata_cache.connections@, connect_id) ==> *final(self) == *old(self) && r == Some(
                MqttPacket::PubRel(
                    PubRel { pkid: pub_rec_packet.pkid, reason: PubRelReason::Success },
                ),
            ),
            has_key(old(self).metadata_cache.connections@, connect_id) ==> {
                let cid = lookup(old(self).metadata_cache.connections@, connect_id)->Some_0
                    .client_id@;
                let key = (cid, pub_rec_packet.pkid);
                &&& has_key(cpv(old(self).ack_manager.waiters@), key) ==> r is None && lookup(
                    cpv(final(self).ack_manager.waiters@),
                    key,
                ) == Some(
                    AckWaiter {
                        delivered: Some(
                            AckPackageData {
                                ack_type: AckPackageType::PubRec,
                                pkid: pub_rec_packet.pkid,
                            },
                        ),
                    },
                )
                &&& !has_key(cpv(old(self).ack_manager.waiters@), key) ==> *final(self) == *old(self) && r == Some(
                    MqttPacket::PubRel(
                        PubRel { pkid: pub_rec_packet.pkid, reason: PubRelReason::Success },
                    ),
                )
                &&& forall|k2: (Seq<char>, u16)|
                    k2 != key ==> #[trigger] lookup(cpv(final(self).ack_manager.waiters@), k2)
                        == lookup(cpv(old(self).ack_manager.waiters@), k2)
                &&& final(self).heartbeat_manager == old(self).heartbeat_manager
                &&& final(self).idempotent_manager == old(self).idempotent_manager
                &&& final(self).subscribe_cache == old(self).subscribe_cache
                &&& final(self).message_storage == old(self).message_storage
                &&& final(self).topic_storage == old(self).topic_storage
                &&& final(self).response_queue == old(self).response_queue
                &&& final(self).client_id_counter == old(self).client_id_counter
                &&& final(self).topic_id_counter == old(self).topic_id_counter
            },
    {
        let client_id = match self.metadata_cache.get_connection(connect_id) {
            Some(c) => Some(c.client_id.clone()),
            None => None,
        };
        if let Some(cid) = client_id {
            let sent = self.ack_manager.complete(
                &cid,
                pub_rec_packet.pkid,
                AckPackageData { ack_type: AckPackageType::PubRec, pkid: pub_rec_packet.pkid },
            );
            if sent {
                return None;
            }
        }
        Some(pub_rel(pub_rec_packet.pkid, PubRelReason::Success))
    }

    /// Handles an inbound PUBCOMP for a broker-initiated QoS 2 delivery:
    /// forwards it to the waiting push worker.  Never replies.
    pub fn publish_comp(&mut self, connect_id: u64, pub_comp_packet: PubComp) -> (r: Option<
        MqttPacket,
    >)
        requires
            old(self).wf(),
        ensures
            final(self).wf(),
            r is None,
            final(self).metadata_cache == old(self).metadata_cache,
            !has_key(old(self).metadata_cache.connections@, connect_id) ==> *final(self) == *old(self),
            has_key(old(self).metadata_cache.connections@, connect_id) ==> {
                let cid = lookup(old(self).metadata_cache.connections@, connect_id)->Some_0
                    .client_id@;
                let key = (cid, pub_comp_packet.pkid);
                &&& has_key(cpv(old(self).ack_manager.waiters@), key) ==> lookup(
                    cpv(final(self).ack_manager.waiters@),
                    key,
                ) == Some(
                    AckWaiter {
                        delivered: Some(
                            AckPackageData {
                                ack_type: AckPackageType::PubComp,
                                pkid: pub_comp_packet.pkid,
                            },
                        ),
                    },
                )
                &&& !has_key(cpv(old(self).ack_manager.waiters@), key) ==> *final(self) == *old(self)
                &&& forall|k2: (Seq<char>, u16)|
                    k2 != key ==> #[trigger] lookup(cpv(final(self).ack_manager.waiters@), k2)
                        == lookup(cpv(old(self).ack_manager.waiters@), k2)
                &&& final(self).heartbeat_manager == old(self).heartbeat_manager
                &&& final(self).idempotent_manager == old(self).idempotent_manager
                &&& final(self).subscribe_cache == old(self).subscribe_cache
                &&& final(self).message_storage == old(self).message_storage
                &&& final(self).topic_storage == old(self).topic_storage
                &&& final(self).response_queue == old(self).response_queue
                &&& final(self).client_id_counter == old(self).client_id_counter
                &&& final(self).topic_id_counter == old(self).topic_id_counter
            },
    {
        let client_id = match self.metadata_cache.get_connection(connect_id) {
            Some(c) => c.client_id.clone(),
            None => {
                return None;
            },
        };
        let _ = self.ack_manager.complete(
            &client_id,
            pub_comp_packet.pkid,
            AckPackageData { ack_type: AckPackageType::PubComp, pkid: pub_comp_packet.pkid },
        );
        None
    }

    /// Handles an inbound PUBREL, the second half of a client's QoS 2
    /// publish: with the matching idempotency entry present the entry is
    /// dropped and PUBCOMP succeeds, without it PUBCOMP reports failure and
    /// nothing changes.
    pub fn publish_rel(&mut self, connect_id: u64, pub_rel_packet: PubRel) -> (r: MqttPacket)
        requires
            old(self).wf(),
        ensures
            final(self).wf(),
            !has_key(old(self).metadata_cache.connections@, connect_id) ==> *final(self) == *old(self) && unknown_connection_reply(r),
            has_key(old(self).metadata_cache.connections@, connect_id) ==> {
                let cid = lookup(old(self).metadata_cache.connections@, connect_id)->Some_0
                    .client_id@;
                let key = (cid, pub_rel_packet.pkid);
                &&& !has_key(pkid_view(old(self).idempotent_manager.qos_pkid@), key) ==> *final(self) == *old(self) && r == MqttPacket::PubComp(
                    PubComp {
                        pkid: pub_rel_packet.pkid,
                        reason: PubCompReason::PacketIdentifierNotFound,
                    },
                )
                &&& has_key(pkid_view(old(self).idempotent_manager.qos_pkid@), key) ==> {
                    &&& r == MqttPacket::PubComp(
                        PubComp { pkid: pub_rel_packet.pkid, reason: PubCompReason::Success },
                    )
                    &&& !has_key(pkid_view(final(self).idempotent_manager.qos_pkid@), key)
                    &&& forall|k2: (Seq<char>, u16)|
                        k2 != key ==> #[trigger] lookup(
                            pkid_view(final(self).idempotent_manager.qos_pkid@),
                            k2,
                        ) == lookup(pkid_view(old(self).idempotent_manager.qos_pkid@), k2)
                    &&& final(self).idempotent_manager.sub_pkid == old(self).idempotent_manager.sub_pkid
                    &&& final(self).metadata_cache == old(self).metadata_cache
                    &&& final(self).heartbeat_manager == old(self).heartbeat_manager
                    &&& final(self).ack_manager == old(self).ack_manager
                    &&& final(self).subscribe_cache == old(self).subscribe_cache
                    &&& final(self).message_storage == old(self).message_storage
                    &&& final(self).topic_storage == old(self).topic_storage
                    &&& final(self).response_queue == old(self).response_queue
                    &&& final(self).client_id_counter == old(self).client_id_counter
                    &&& final(self).topic_id_counter == old(self).topic_id_counter
                }
            },
    {
        let client_id = match self.metadata_cache.get_connection(connect_id) {
            Some(c) => c.client_id.clone(),
            None => {
                return distinct(
                    DisconnectReasonCode::UnspecifiedError,
                    Some(String::from_str("not found connection in cache")),
                );
            },
        };
        if !self.idempotent_manager.get_qos_pkid_data(&client_id, pub_rel_packet.pkid) {
            return publish_comp_fail(pub_rel_packet.pkid);
        }
        self.idempotent_manager.delete_qos_pkid_data(&client_id, pub_rel_packet.pkid);
        publish_comp_success(pub_rel_packet.pkid)
    }

    /// Handles PUBLISH: resolves the topic (recording a carried alias),
    /// creates the topic on first use, enforces the payload policy,
    /// deduplicates QoS 2 packet identifiers, stores the retained message
    /// and appends to the log, and replies as the QoS level demands.
    pub fn publish(
        &mut self,
        connect_id: u64,
        publish: Publish,
        publish_properties: Option<PublishProperties>,
    ) -> (r: Option<MqttPacket>)
        requires
            old(self).wf(),
            old(self).topic_id_counter < u64::MAX,
        ensures
            final(self).wf(),
            // Unresolvable topic: failed PUBACK, nothing changes.
            resolve_topic_name(old(self).metadata_cache, connect_id, publish, publish_properties)
                is None ==> *final(self) == *old(self) && (r matches Some(
                MqttPacket::PubAck(a),
            ) && a.pkid == publish.pkid && a.reason == PubAckReason::UnspecifiedError),
            // Resolution succeeded: alias and topic bookkeeping happen in
            // every later branch.
            resolve_topic_name(old(self).metadata_cache, connect_id, publish, publish_properties)
                matches Some(name) ==> {
                let conn = lookup(old(self).metadata_cache.connections@, connect_id);
                let tid = resolved_topic_id(old(self).metadata_cache, old(self).topic_id_counter, name);
                &&& aliases_after_publish(*old(self), *final(self), connect_id, publish, publish_properties)
                &&& topics_after_publish(*old(self), *final(self), name)
                // Unknown connection: DISCONNECT.
                &&& conn is None ==> publish_rejected_frame(*old(self), *final(self)) && (
                r matches Some(p) && unknown_connection_reply(p))
                &&& conn matches Some(c) ==> {
                    let cid = c.client_id@;
                    let bad_payload = publish.payload@.len() == 0 || publish.payload@.len()
                        > c.max_packet_size;
                    let dup2 = publish.qos == QoS::ExactlyOnce && has_key(
                        pkid_view(old(self).idempotent_manager.qos_pkid@),
                        (cid, publish.pkid),
                    );
                    // Payload policy violation: failed PUBACK.
                    &&& bad_payload ==> publish_rejected_frame(*old(self), *final(self)) && (
                    r matches Some(MqttPacket::PubAck(a)) && a.pkid == publish.pkid && a.reason
                        == PubAckReason::PayloadFormatInvalid)
                    // Duplicate QoS 2 packet identifier: failed PUBACK.
                    &&& !bad_payload && dup2 ==> publish_rejected_frame(*old(self), *final(self))
                        && (r matches Some(MqttPacket::PubAck(a)) && a.pkid == publish.pkid
                        && a.reason == PubAckReason::PacketIdentifierInUse)
                    // Accepted.
                    &&& !bad_payload && !dup2 ==> {
                        let pre_log = crate::storage::topic_log(old(self).message_storage, tid);
                        let post_log = crate::storage::topic_log(final(self).message_storage, tid);
                        let mview = (
                            cid,
                            publish.qos,
                            publish.pkid,
                            publish.retain,
                            publish.dup,
                            name,
                            publish.payload@,
                        );
                        &&& publish_accepted_frame(*old(self), *final(self))
                        // The retained message is replaced when asked.
                        &&& publish.retain ==> (crate::storage::retained_of(
                            final(self).topic_storage,
                            tid,
                        ) matches Some(m) && crate::types::msg_view(m) == mview)
                        &&& !publish.retain ==> final(self).topic_storage == old(self).topic_storage
                        &&& forall|t2: u64|
                            t2 != tid ==> #[trigger] lookup(final(self).topic_storage.retained@, t2)
                                == lookup(old(self).topic_storage.retained@, t2)
                        // Exactly one record is appended to the topic's log.
                        &&& post_log.len() == pre_log.len() + 1
                        &&& post_log.take(pre_log.len() as int) == pre_log
                        &&& crate::types::msg_view(post_log.last().message) == mview
                        &&& forall|t2: u64|
                            t2 != tid ==> #[trigger] crate::storage::topic_log(
                                final(self).message_storage,
                                t2,
                            ) == crate::storage::topic_log(old(self).message_storage, t2)
                        // The reply follows the QoS level; QoS 2 arms the
                        // idempotency entry.
                        &&& publish.qos == QoS::AtMostOnce ==> r is None
                            && final(self).idempotent_manager == old(self).idempotent_manager
                        &&& publish.qos == QoS::AtLeastOnce ==> (r matches Some(
                            MqttPacket::PubAck(a),
                        ) && a.pkid == publish.pkid && a.reason == PubAckReason::Success
                            && a.user_properties@.len() == 1 && a.user_properties@[0].0@
                            == "offset"@ && a.user_properties@[0].1@
                            == crate::decimal::spec_decimal(pre_log.len())) && final(self).idempotent_manager == old(self).idempotent_manager
                        &&& publish.qos == QoS::ExactlyOnce ==> (r matches Some(
                            MqttPacket::PubRec(b),
                        ) && b.pkid == publish.pkid && b.user_properties@.len() == 1
                            && b.user_properties@[0].0@ == "offset"@ && b.user_properties@[0].1@
                            == crate::decimal::spec_decimal(pre_log.len())) && has_key(
                            pkid_view(final(self).idempotent_manager.qos_pkid@),
                            (cid, publish.pkid),
                        ) && (forall|k2: (Seq<char>, u16)|
                            k2 != (cid, publish.pkid) ==> #[trigger] lookup(
                                pkid_view(final(self).idempotent_manager.qos_pkid@),
                                k2,
                            ) == lookup(pkid_view(old(self).idempotent_manager.qos_pkid@), k2))
                    }
                }
            },
    {
        let topic_name: String = if publish.topic.as_str().unicode_len() > 0 {
            let name = publish.topic.clone();
            let alias = match &publish_properties {
                Some(pp) => pp.topic_alias,
                None => None,
            };
            if let Some(a) = alias {
                self.metadata_cache.set_topic_alias(connect_id, a, &name);
            }
            name
        } else {
            let alias = match &publish_properties {
                Some(pp) => pp.topic_alias,
                None => None,
            };
            match alias {
                Some(a) => match self.metadata_cache.get_topic_alias(connect_id, a) {
                    Some(t) => t,
                    None => {
                        return Some(
                            pub_ack_fail(
                                publish.pkid,
                                PubAckReason::UnspecifiedError,
                                Some(String::from_str("topic alias is not bound")),
                            ),
                        );
                    },
                },
                None => {
                    return Some(
                        pub_ack_fail(
                            publish.pkid,
                            PubAckReason::UnspecifiedError,
                            Some(String::from_str("topic name is empty")),
                        ),
                    );
                },
            }
        };
        let tid = match self.metadata_cache.get_topic(&topic_name) {
            Some(t) => t.topic_id,
            None => {
                let new_tid = self.topic_id_counter;
                self.topic_id_counter = self.topic_id_counter + 1;
                self.metadata_cache.add_topic(
                    &topic_name,
                    crate::types::TopicInfo { topic_id: new_tid, topic_name: topic_name.clone() },
                );
                new_tid
            },
        };
        let (client_id, max_packet_size) = match self.metadata_cache.get_connection(connect_id) {
            Some(c) => (c.client_id.clone(), c.max_packet_size),
            None => {
                return Some(
                    distinct(
                        DisconnectReasonCode::UnspecifiedError,
                        Some(String::from_str("not found connection in cache")),
                    ),
                );
            },
        };
        if publish.payload.len() == 0 || publish.payload.len() > (max_packet_size as usize) {
            return Some(
                pub_ack_fail(
                    publish.pkid,
                    PubAckReason::PayloadFormatInvalid,
                    Some(String::from_str("packet length is beyond the limit")),
                ),
            );
        }
        let is_qos2 = match publish.qos {
            QoS::ExactlyOnce => true,
            _ => false,
        };
        if is_qos2 && self.idempotent_manager.get_qos_pkid_data(&client_id, publish.pkid) {
            return Some(pub_ack_fail(publish.pkid, PubAckReason::PacketIdentifierInUse, None));
        }
        if publish.retain {
            let retain_message = crate::types::MqttMessage::build_message(
                &client_id,
                &topic_name,
                &publish,
            );
            match self.topic_storage.save_retain_message(tid, retain_message) {
                Ok(_) => {},
                Err(e) => {
                    return Some(distinct(DisconnectReasonCode::UnspecifiedError, Some(e)));
                },
            }
        }
        let offset = match crate::types::MqttMessage::build_record(&client_id, &topic_name, &publish) {
            Some(record) => {
                let mut records: Vec<crate::types::LogRecord> = Vec::new();
                records.push(record);
                match self.message_storage.append_topic_message(tid, records) {
                    Ok(off) => off,
                    Err(e) => {
                        return Some(distinct(DisconnectReasonCode::UnspecifiedError, Some(e)));
                    },
                }
            },
            // The payload policy above already refused empty payloads, so a
            // record always exists.
            None => 0,
        };
        let offset_str = crate::decimal::u64_to_string(offset);
        let mut user_properties: Vec<(String, String)> = Vec::new();
        user_properties.push((String::from_str("offset"), offset_str));
        match publish.qos {
            QoS::AtMostOnce => None,
            QoS::AtLeastOnce => Some(pub_ack(publish.pkid, user_properties)),
            QoS::ExactlyOnce => {
                self.idempotent_manager.save_qos_pkid_data(&client_id, publish.pkid);
                Some(pub_rec(publish.pkid, user_properties))
            },
        }
    }

    /// Queues the retained messages a new subscription must receive: for
    /// each grammatical filter, the retained message of every known topic
    /// the filter matches.
    fn send_retain_message(&mut self, connect_id: u64, subscribe: &Subscribe)
        requires
            old(self).wf(),
        ensures
            final(self).wf(),
            rp_views(final(self).response_queue@) == rp_views(old(self).response_queue@)
                + replay_views(
                old(self).metadata_cache.topics@,
                old(self).topic_storage.retained@,
                subscribe.filters@,
                connect_id,
            ),
            final(self).metadata_cache == old(self).metadata_cache,
            final(self).heartbeat_manager == old(self).heartbeat_manager,
            final(self).idempotent_manager == old(self).idempotent_manager,
            final(self).ack_manager == old(self).ack_manager,
            final(self).subscribe_cache == old(self).subscribe_cache,
            final(self).message_storage == old(self).message_storage,
            final(self).topic_storage == old(self).topic_storage,
            final(self).client_id_counter == old(self).client_id_counter,
            final(self).topic_id_counter == old(self).topic_id_counter,
    {
        let ghost topics = self.metadata_cache.topics@;
        let ghost ret = self.topic_storage.retained@;
        let ghost fs = subscribe.filters@;
        let ghost base = rp_views(old(self).response_queue@);
        let n = subscribe.filters.len();
        let mut i: usize = 0;
        proof {
            assert(fs.take(0) =~= Seq::<crate::packet::SubscribeFilter>::empty());
            assert(base + replay_views(topics, ret, fs.take(0), connect_id) =~= base);
        }
        while i < n
            invariant
                n == fs.len(),
                i <= n,
                fs == subscribe.filters@,
                topics == self.metadata_cache.topics@,
                ret == self.topic_storage.retained@,
                self.metadata_cache == old(self).metadata_cache,
                self.heartbeat_manager == old(self).heartbeat_manager,
                self.idempotent_manager == old(self).idempotent_manager,
                self.ack_manager == old(self).ack_manager,
                self.subscribe_cache == old(self).subscribe_cache,
                self.message_storage == old(self).message_storage,
                self.topic_storage == old(self).topic_storage,
                self.client_id_counter == old(self).client_id_counter,
                self.topic_id_counter == old(self).topic_id_counter,
                base == rp_views(old(self).response_queue@),
                rp_views(self.response_queue@) == base + replay_views(
                    topics,
                    ret,
                    fs.take(i as int),
                    connect_id,
                ),
            decreases n - i,
        {
            proof {
                assert(fs.take(i + 1).drop_last() =~= fs.take(i as int));
                assert(fs.take(i + 1).last() == fs[i as int]);
            }
            if crate::topic_filter::sub_path_validator(&subscribe.filters[i].path) {
                let ghost f = fs[i as int];
                let ghost start = rp_views(self.response_queue@);
                let m = self.metadata_cache.topics.len();
                let mut j: usize = 0;
                proof {
                    assert(topics.skip(0) =~= topics);
                    assert(start + Seq::<
                        (u64, Option<(Seq<char>, Seq<u8>, QoS, bool)>),
                    >::empty() =~= start);
                }
                while j < m
                    invariant
                        m == topics.len(),
                        j <= m,
                        fs == subscribe.filters@,
                        n == fs.len(),
                        i < n,
                        f == fs[i as int],
                        start == base + replay_views(topics, ret, fs.take(i as int), connect_id),
                        base == rp_views(old(self).response_queue@),
                        topics == self.metadata_cache.topics@,
                        ret == self.topic_storage.retained@,
                        self.metadata_cache == old(self).metadata_cache,
                        self.heartbeat_manager == old(self).heartbeat_manager,
                        self.idempotent_manager == old(self).idempotent_manager,
                        self.ack_manager == old(self).ack_manager,
                        self.subscribe_cache == old(self).subscribe_cache,
                        self.message_storage == old(self).message_storage,
                        self.topic_storage == old(self).topic_storage,
                        self.client_id_counter == old(self).client_id_counter,
                        self.topic_id_counter == old(self).topic_id_counter,
                        rp_views(self.response_queue@) + replay_one(
                            topics.skip(j as int),
                            ret,
                            f,
                            connect_id,
                        ) == start + replay_one(topics, ret, f, connect_id),
                    decreases m - j,
                {
                    proof {
                        assert(topics.skip(j as int)[0] == topics[j as int]);
                        assert(topics.skip(j as int).drop_first() =~= topics.skip(j + 1));
                    }
                    let topic_name = self.metadata_cache.topics[j].0.clone();
                    let topic_id = self.metadata_cache.topics[j].1.topic_id;
                    if crate::topic_filter::topic_matches_filter(
                        &topic_name,
                        &subscribe.filters[i].path,
                    ) {
                        match self.topic_storage.get_retain_message(topic_id) {
                            Some(msg) => {
                                let packet = MqttPacket::Publish(
                                    Publish {
                                        dup: false,
                                        qos: msg.qos,
                                        pkid: 0,
                                        retain: true,
                                        topic: msg.topic.clone(),
                                        payload: crate::types::copy_payload(&msg.payload),
                                    },
                                );
                                let ghost before = self.response_queue@;
                                self.response_queue.push(
                                    ResponsePackage { connect_id, packet },
                                );
                                proof {
                                    assert(rp_views(self.response_queue@) =~= rp_views(before).push(
                                        rp_view(self.response_queue@.last()),
                                    ));
                                    let hd = seq![
                                        (
                                            connect_id,
                                            Some(
                                                (
                                                    lookup(ret, topics[j as int].1.topic_id)->Some_0.topic@,
                                                    lookup(ret, topics[j as int].1.topic_id)->Some_0.payload@,
                                                    lookup(ret, topics[j as int].1.topic_id)->Some_0.qos,
                                                    true,
                                                ),
                                            ),
                                        ),
                                    ];
                                    assert(replay_one(topics.skip(j as int), ret, f, connect_id)
                                        =~= hd + replay_one(topics.skip(j + 1), ret, f, connect_id));
                                    assert(rp_views(before).push(hd[0]) =~= rp_views(before) + hd);
                                    assert((rp_views(before) + hd) + replay_one(
                                        topics.skip(j + 1),
                                        ret,
                                        f,
                                        connect_id,
                                    ) =~= rp_views(before) + (hd + replay_one(
                                        topics.skip(j + 1),
                                        ret,
                                        f,
                                        connect_id,
                                    )));
                                }
                            },
                            None => {},
                        }
                    }
                    j = j + 1;
                }
                proof {
                    assert(topics.skip(m as int) =~= Seq::<
                        (String, crate::types::TopicInfo),
                    >::empty());
                    assert(rp_views(self.response_queue@) + Seq::<
                        (u64, Option<(Seq<char>, Seq<u8>, QoS, bool)>),
                    >::empty() =~= rp_views(self.response_queue@));
                    assert(base + replay_views(topics, ret, fs.take(i as int), connect_id)
                        + replay_one(topics, ret, f, connect_id) =~= base + (replay_views(
                        topics,
                        ret,
                        fs.take(i as int),
                        connect_id,
                    ) + replay_one(topics, ret, f, connect_id)));
                }
            } else {
                proof {
                    assert(base + replay_views(topics, ret, fs.take(i as int), connect_id) + Seq::<
                        (u64, Option<(Seq<char>, Seq<u8>, QoS, bool)>),
                    >::empty() =~= base + replay_views(topics, ret, fs.take(i as int), connect_id));
                }
            }
            i = i + 1;
        }
        proof {
            assert(fs.take(n as int) =~= fs);
        }
    }

    /// Handles SUBSCRIBE: refuses a packet identifier already in flight,
    /// refuses a packet with no grammatical filter, and otherwise grants
    /// each valid filter the lesser of its and the cluster's QoS, records
    /// the subscription, queues the retained replay and replies SUBACK with
    /// one reason code per filter in input order.
    pub fn subscribe(
        &mut self,
        connect_id: u64,
        subscribe: Subscribe,
        subscribe_properties: Option<SubscribeProperties>,
    ) -> (r: MqttPacket)
        requires
            old(self).wf(),
        ensures
            final(self).wf(),
            !has_key(old(self).metadata_cache.connections@, connect_id) ==> *final(self) == *old(self)
                && unknown_connection_reply(r),
            // A SUBACK never goes out without the packet identifier being
            // in the subscribe-idempotency set, except for a packet whose
            // filters are all refused.
            (r matches MqttPacket::SubAck(sa) && (any_valid_filter(subscribe.filters@) || has_key(
                pkid_view(old(self).idempotent_manager.sub_pkid@),
                (
                    lookup(old(self).metadata_cache.connections@, connect_id)->Some_0.client_id@,
                    subscribe.packet_identifier,
                ),
            ))) ==> has_key(
                pkid_view(final(self).idempotent_manager.sub_pkid@),
                (
                    lookup(old(self).metadata_cache.connections@, connect_id)->Some_0.client_id@,
                    subscribe.packet_identifier,
                ),
            ),
            has_key(old(self).metadata_cache.connections@, connect_id) ==> {
                let cid = lookup(old(self).metadata_cache.connections@, connect_id)->Some_0.client_id@;
                let pk = subscribe.packet_identifier;
                let in_flight = has_key(
                    pkid_view(old(self).idempotent_manager.sub_pkid@),
                    (cid, pk),
                );
                &&& in_flight ==> *final(self) == *old(self) && (r matches MqttPacket::SubAck(sa)
                    && sa.pkid == pk && sa.return_codes@ == seq![
                    crate::packet::SubscribeReasonCode::PkidInUse,
                ])
                &&& !in_flight && !any_valid_filter(subscribe.filters@) ==> *final(self) == *old(self)
                    && (r matches MqttPacket::SubAck(sa) && sa.pkid == pk && sa.return_codes@
                    == seq![crate::packet::SubscribeReasonCode::TopicFilterInvalid])
                &&& !in_flight && any_valid_filter(subscribe.filters@) ==> {
                    &&& r matches MqttPacket::SubAck(sa) && sa.pkid == pk && sa.return_codes@
                        == reason_codes_of(
                        subscribe.filters@,
                        old(self).metadata_cache.cluster_info.max_qos,
                    )
                    // The packet identifier is armed; nothing else in the set moves.
                    &&& has_key(pkid_view(final(self).idempotent_manager.sub_pkid@), (cid, pk))
                    &&& forall|k2: (Seq<char>, u16)|
                        k2 != (cid, pk) ==> #[trigger] lookup(
                            pkid_view(final(self).idempotent_manager.sub_pkid@),
                            k2,
                        ) == lookup(pkid_view(old(self).idempotent_manager.sub_pkid@), k2)
                    &&& final(self).idempotent_manager.qos_pkid == old(self).idempotent_manager.qos_pkid
                    // Both subscription indices hold the last valid filter
                    // of each path.
                    &&& forall|p: Seq<char>|
                        match crate::subscribe_cache::last_valid_filter(subscribe.filters@, p) {
                            Some(f) => #[trigger] lookup(
                                ssv(final(self).subscribe_cache.subscriptions@),
                                (cid, p),
                            ) == Some(
                                crate::subscribe_cache::subscriber_of(
                                    lookup(
                                        old(self).metadata_cache.connections@,
                                        connect_id,
                                    )->Some_0.client_id,
                                    f,
                                    MqttProtocol::Mqtt5,
                                    subscribe_properties,
                                ),
                            ),
                            None => lookup(
                                ssv(final(self).subscribe_cache.subscriptions@),
                                (cid, p),
                            ) == lookup(ssv(old(self).subscribe_cache.subscriptions@), (cid, p)),
                        }
                    &&& forall|k2: (Seq<char>, Seq<char>)|
                        k2.0 != cid ==> #[trigger] lookup(
                            ssv(final(self).subscribe_cache.subscriptions@),
                            k2,
                        ) == lookup(ssv(old(self).subscribe_cache.subscriptions@), k2)
                    &&& forall|p: Seq<char>|
                        match crate::subscribe_cache::last_valid_filter(subscribe.filters@, p) {
                            Some(f) => #[trigger] lookup(
                                ssv(final(self).metadata_cache.subscriptions@),
                                (cid, p),
                            ) == Some(
                                crate::subscribe_cache::subscriber_of(
                                    lookup(
                                        old(self).metadata_cache.connections@,
                                        connect_id,
                                    )->Some_0.client_id,
                                    f,
                                    MqttProtocol::Mqtt5,
                                    subscribe_properties,
                                ),
                            ),
                            None => lookup(
                                ssv(final(self).metadata_cache.subscriptions@),
                                (cid, p),
                            ) == lookup(ssv(old(self).metadata_cache.subscriptions@), (cid, p)),
                        }
                    &&& forall|k2: (Seq<char>, Seq<char>)|
                        k2.0 != cid ==> #[trigger] lookup(
                            ssv(final(self).metadata_cache.subscriptions@),
                            k2,
                        ) == lookup(ssv(old(self).metadata_cache.subscriptions@), k2)
                    // The retained replay is queued.
                    &&& rp_views(final(self).response_queue@) == rp_views(
                        old(self).response_queue@,
                    ) + replay_views(
                        old(self).metadata_cache.topics@,
                        old(self).topic_storage.retained@,
                        subscribe.filters@,
                        connect_id,
                    )
                    // Nothing else moves.
                    &&& final(self).metadata_cache.cluster_info == old(self).metadata_cache.cluster_info
                    &&& final(self).metadata_cache.users == old(self).metadata_cache.users
                    &&& final(self).metadata_cache.topics == old(self).metadata_cache.topics
                    &&& final(self).metadata_cache.sessions == old(self).metadata_cache.sessions
                    &&& final(self).metadata_cache.connections == old(self).metadata_cache.connections
                    &&& final(self).metadata_cache.topic_alias == old(self).metadata_cache.topic_alias
                    &&& final(self).heartbeat_manager == old(self).heartbeat_manager
                    &&& final(self).ack_manager == old(self).ack_manager
                    &&& final(self).message_storage == old(self).message_storage
                    &&& final(self).topic_storage == old(self).topic_storage
                    &&& final(self).client_id_counter == old(self).client_id_counter
                    &&& final(self).topic_id_counter == old(self).topic_id_counter
                }
            },
    {
        let client_id = match self.metadata_cache.get_connection(connect_id) {
            Some(c) => c.client_id.clone(),
            None => {
                return distinct(
                    DisconnectReasonCode::UnspecifiedError,
                    Some(String::from_str("not found connection in cache")),
                );
            },
        };
        if self.idempotent_manager.get_sub_pkid_data(&client_id, subscribe.packet_identifier) {
            let mut codes: Vec<crate::packet::SubscribeReasonCode> = Vec::new();
            codes.push(crate::packet::SubscribeReasonCode::PkidInUse);
            proof {
                assert(codes@ =~= seq![crate::packet::SubscribeReasonCode::PkidInUse]);
            }
            return sub_ack(subscribe.packet_identifier, codes);
        }
        let cluster_qos = self.metadata_cache.cluster_info.max_qos;
        let ghost fs = subscribe.filters@;
        let n = subscribe.filters.len();
        let mut return_codes: Vec<crate::packet::SubscribeReasonCode> = Vec::new();
        let mut contain_success = false;
        let mut i: usize = 0;
        proof {
            assert(fs.take(0) =~= Seq::<crate::packet::SubscribeFilter>::empty());
            assert(return_codes@ =~= reason_codes_of(fs.take(0), cluster_qos));
        }
        while i < n
            invariant
                n == fs.len(),
                i <= n,
                fs == subscribe.filters@,
                return_codes@ == reason_codes_of(fs.take(i as int), cluster_qos),
                contain_success == any_valid_filter(fs.take(i as int)),
            decreases n - i,
        {
            let f = &subscribe.filters[i];
            proof {
                assert(fs.take(i + 1).drop_last() =~= fs.take(i as int));
                assert(fs.take(i + 1).last() == fs[i as int]);
                assert(reason_codes_of(fs.take(i + 1), cluster_qos) =~= reason_codes_of(
                    fs.take(i as int),
                    cluster_qos,
                ).push(code_of(fs[i as int], cluster_qos)));
            }
            if crate::topic_filter::sub_path_validator(&f.path) {
                contain_success = true;
                let granted = crate::topic_filter::min_qos(cluster_qos, f.qos);
                let code = match granted {
                    QoS::AtMostOnce => crate::packet::SubscribeReasonCode::QoS0,
                    QoS::AtLeastOnce => crate::packet::SubscribeReasonCode::QoS1,
                    QoS::ExactlyOnce => crate::packet::SubscribeReasonCode::QoS2,
                };
                proof {
                    assert(code == code_of(fs[i as int], cluster_qos));
                }
                return_codes.push(code);
            } else {
                return_codes.push(crate::packet::SubscribeReasonCode::TopicFilterInvalid);
            }
            proof {
                assert(any_valid_filter(fs.take(i + 1)) == (any_valid_filter(fs.take(i as int))
                    || crate::topic_filter::valid_filter(fs[i as int].path@))) by {
                    if any_valid_filter(fs.take(i + 1)) {
                        let w = choose|w: int|
                            0 <= w < fs.take(i + 1).len() && crate::topic_filter::valid_filter(
                                #[trigger] fs.take(i + 1)[w].path@,
                            );
                        if w < i {
                            assert(fs.take(i as int)[w] == fs.take(i + 1)[w]);
                        }
                    }
                    if any_valid_filter(fs.take(i as int)) {
                        let w = choose|w: int|
                            0 <= w < fs.take(i as int).len() && crate::topic_filter::valid_filter(
                                #[trigger] fs.take(i as int)[w].path@,
                            );
                        assert(fs.take(i + 1)[w] == fs.take(i as int)[w]);
                    }
                    if crate::topic_filter::valid_filter(fs[i as int].path@) {
                        assert(fs.take(i + 1)[i as int] == fs[i as int]);
                    }
                }
            }
            i = i + 1;
        }
        proof {
            assert(fs.take(n as int) =~= fs);
        }
        if !contain_success {
            let mut codes: Vec<crate::packet::SubscribeReasonCode> = Vec::new();
            codes.push(crate::packet::SubscribeReasonCode::TopicFilterInvalid);
            proof {
                assert(codes@ =~= seq![crate::packet::SubscribeReasonCode::TopicFilterInvalid]);
            }
            return sub_ack(subscribe.packet_identifier, codes);
        }
        self.idempotent_manager.save_sub_pkid_data(&client_id, subscribe.packet_identifier);
        self.metadata_cache.add_client_subscribe(
            &client_id,
            MqttProtocol::Mqtt5,
            &subscribe,
            &subscribe_properties,
        );
        self.subscribe_cache.add_subscribe(
            &client_id,
            MqttProtocol::Mqtt5,
            &subscribe,
            &subscribe_properties,
        );
        self.send_retain_message(connect_id, &subscribe);
        sub_ack(subscribe.packet_identifier, return_codes)
    }

    /// Handles UNSUBSCRIBE: forgets the packet identifier, removes the
    /// listed filters from both subscription indices, and replies UNSUBACK
    /// with one success code per filter.
    pub fn un_subscribe(&mut self, connect_id: u64, un_subscribe: Unsubscribe) -> (r: MqttPacket)
        requires
            old(self).wf(),
        ensures
            final(self).wf(),
            !has_key(old(self).metadata_cache.connections@, connect_id) ==> *final(self) == *old(self)
                && unknown_connection_reply(r),
            has_key(old(self).metadata_cache.connections@, connect_id) ==> {
                let cid = lookup(old(self).metadata_cache.connections@, connect_id)->Some_0.client_id@;
                &&& r matches MqttPacket::UnsubAck(ua) && ua.pkid == un_subscribe.pkid
                    && ua.reason_string is None && ua.reasons@.len() == un_subscribe.filters@.len()
                    && (forall|i: int|
                    0 <= i < ua.reasons@.len() ==> #[trigger] ua.reasons@[i]
                        == crate::packet::UnsubAckReason::Success)
                &&& !has_key(
                    pkid_view(final(self).idempotent_manager.sub_pkid@),
                    (cid, un_subscribe.pkid),
                )
                &&& forall|k2: (Seq<char>, u16)|
                    k2 != (cid, un_subscribe.pkid) ==> #[trigger] lookup(
                        pkid_view(final(self).idempotent_manager.sub_pkid@),
                        k2,
                    ) == lookup(pkid_view(old(self).idempotent_manager.sub_pkid@), k2)
                &&& final(self).idempotent_manager.qos_pkid == old(self).idempotent_manager.qos_pkid
                // Listed paths leave both indices; others stay.
                &&& forall|p: Seq<char>|
                    #[trigger] crate::subscribe_cache::path_listed(un_subscribe.filters@, p)
                        ==> !has_key(ssv(final(self).subscribe_cache.subscriptions@), (cid, p))
                        && !has_key(ssv(final(self).metadata_cache.subscriptions@), (cid, p))
                &&& forall|p: Seq<char>|
                    !crate::subscribe_cache::path_listed(un_subscribe.filters@, p) ==> #[trigger] lookup(
                        ssv(final(self).subscribe_cache.subscriptions@),
                        (cid, p),
                    ) == lookup(ssv(old(self).subscribe_cache.subscriptions@), (cid, p)) && lookup(
                        ssv(final(self).metadata_cache.subscriptions@),
                        (cid, p),
                    ) == lookup(ssv(old(self).metadata_cache.subscriptions@), (cid, p))
                &&& forall|k2: (Seq<char>, Seq<char>)|
                    k2.0 != cid ==> #[trigger] lookup(
                        ssv(final(self).subscribe_cache.subscriptions@),
                        k2,
                    ) == lookup(ssv(old(self).subscribe_cache.subscriptions@), k2) && lookup(
                        ssv(final(self).metadata_cache.subscriptions@),
                        k2,
                    ) == lookup(ssv(old(self).metadata_cache.subscriptions@), k2)
                &&& final(self).metadata_cache.cluster_info == old(self).metadata_cache.cluster_info
                &&& final(self).metadata_cache.users == old(self).metadata_cache.users
                &&& final(self).metadata_cache.topics == old(self).metadata_cache.topics
                &&& final(self).metadata_cache.sessions == old(self).metadata_cache.sessions
                &&& final(self).metadata_cache.connections == old(self).metadata_cache.connections
                &&& final(self).metadata_cache.topic_alias == old(self).metadata_cache.topic_alias
                &&& final(self).heartbeat_manager == old(self).heartbeat_manager
                &&& final(self).ack_manager == old(self).ack_manager
                &&& final(self).message_storage == old(self).message_storage
                &&& final(self).topic_storage == old(self).topic_storage
                &&& final(self).response_queue == old(self).response_queue
                &&& final(self).client_id_counter == old(self).client_id_counter
                &&& final(self).topic_id_counter == old(self).topic_id_counter
            },
    {
        let client_id = match self.metadata_cache.get_connection(connect_id) {
            Some(c) => c.client_id.clone(),
            None => {
                return distinct(
                    DisconnectReasonCode::UnspecifiedError,
                    Some(String::from_str("not found connection in cache")),
                );
            },
        };
        self.idempotent_manager.delete_sub_pkid_data(&client_id, un_subscribe.pkid);
        self.subscribe_cache.remove_subscribe(&client_id, &un_subscribe.filters);
        self.metadata_cache.remove_filter_by_pkid(&client_id, &un_subscribe.filters);
        let n = un_subscribe.filters.len();
        let mut reasons: Vec<crate::packet::UnsubAckReason> = Vec::new();
        let mut i: usize = 0;
        while i < n
            invariant
                i <= n,
                reasons@.len() == i,
                forall|j: int|
                    0 <= j < i ==> #[trigger] reasons@[j] == crate::packet::UnsubAckReason::Success,
            decreases n - i,
        {
            reasons.push(crate::packet::UnsubAckReason::Success);
            i = i + 1;
        }
        unsub_ack(un_subscribe.pkid, None, reasons)
    }
}

} // verus!
