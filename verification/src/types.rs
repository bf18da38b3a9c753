//! Broker-side records: cluster configuration, users, topics, sessions,
//! connections, heartbeat entries, stored messages and push events.

use vstd::prelude::*;

use crate::packet::{MqttPacket, QoS};

verus! {

/// Protocol revision a connection negotiated.
#[derive(Debug, Clone, Copy, PartialEq, Eq, Structural)]
pub enum MqttProtocol {
    Mqtt4,
    Mqtt5,
}

/// Cluster-wide configuration, read-mostly.
#[derive(Debug, Clone, PartialEq)]
pub struct ClusterInfo {
    pub cluster_name: String,
    /// Highest quality of service the cluster grants to subscribers.
    pub max_qos: QoS,
    /// Largest accepted publish payload, in bytes.
    pub max_packet_size: u32,
    /// Session expiry granted when the client requests none, in seconds.
    pub default_session_expiry: u32,
    /// When true, a CONNECT must present credentials.
    pub secure: bool,
}

/// A registered user.
#[derive(Debug, Clone, PartialEq)]
pub struct User {
    pub username: String,
    pub password: String,
    pub is_superuser: bool,
}

/// A known topic; `topic_id` is the stable storage key.
#[derive(Debug, Clone, PartialEq)]
pub struct TopicInfo {
    pub topic_id: u64,
    pub topic_name: String,
}

/// Per-client session state, surviving disconnects until expiry.
#[derive(Debug, Clone, PartialEq)]
pub struct Session {
    pub client_id: String,
    /// Connection currently bound to the session, if any.
    pub connect_id: Option<u64>,
    pub session_expiry: u32,
    pub last_will: Option<crate::packet::LastWill>,
    pub last_will_properties: Option<crate::packet::LastWillProperties>,
    pub created_at: u64,
}

/// One live client connection.
#[derive(Debug, Clone, PartialEq)]
pub struct ConnectionInfo {
    pub connect_id: u64,
    pub client_id: String,
    pub keep_alive: u16,
    pub max_packet_size: u32,
    pub protocol: MqttProtocol,
}

/// Last-seen record of a connection, kept by the keep-alive reaper.
#[derive(Debug, Clone, Copy, PartialEq, Eq, Structural)]
pub struct ConnectionLiveTime {
    pub protocol: MqttProtocol,
    pub keep_live: u16,
    /// Seconds since the epoch at the last heartbeat.
    pub heartbeat: u64,
}

/// A message as persisted in the log and in the retained store.
#[derive(Debug, Clone, PartialEq)]
pub struct MqttMessage {
    pub client_id: String,
    pub dup: bool,
    pub qos: QoS,
    pub pkid: u16,
    pub retain: bool,
    pub topic: String,
    pub payload: Vec<u8>,
}

/// One record appended to a topic's log.
#[derive(Debug, Clone, PartialEq)]
pub struct LogRecord {
    pub message: MqttMessage,
}

/// A packet queued for delivery to a connection by the push pipeline.
#[derive(Debug, Clone, PartialEq)]
pub struct ResponsePackage {
    pub connect_id: u64,
    pub packet: MqttPacket,
}

/// One validated subscription, as the push workers and the cleanup paths
/// see it.
#[derive(Debug, Clone, PartialEq)]
pub struct Subscriber {
    pub client_id: String,
    pub path: String,
    pub qos: QoS,
    pub no_local: bool,
    pub preserve_retain: bool,
    pub protocol: MqttProtocol,
    pub subscription_identifier: Option<u32>,
}

/// The acknowledgement kinds a waiting push worker can receive.
#[derive(Debug, Clone, Copy, PartialEq, Eq, Structural)]
pub enum AckPackageType {
    PubAck,
    PubRec,
    PubComp,
}

/// What an inbound acknowledgement delivers to a waiting push worker.
#[derive(Debug, Clone, Copy, PartialEq, Eq, Structural)]
pub struct AckPackageData {
    pub ack_type: AckPackageType,
    pub pkid: u16,
}

/// The observable content of a stored message: client, QoS, packet
/// identifier, retain and duplicate flags, topic and payload.
pub open spec fn msg_view(m: MqttMessage) -> (Seq<char>, QoS, u16, bool, bool, Seq<char>, Seq<u8>) {
    (m.client_id@, m.qos, m.pkid, m.retain, m.dup, m.topic@, m.payload@)
}

/// Byte-for-byte copy of a payload.
pub fn copy_payload(v: &Vec<u8>) -> (r: Vec<u8>)
    ensures
        r@ == v@,
{
    let mut r: Vec<u8> = Vec::new();
    let mut i: usize = 0;
    while i < v.len()
        invariant
            i <= v@.len(),
            r@ == v@.take(i as int),
        decreases v@.len() - i,
    {
        r.push(v[i]);
        proof {
            assert(v@.take(i + 1) =~= v@.take(i as int).push(v@[i as int]));
        }
        i = i + 1;
    }
    proof {
        assert(v@.take(v@.len() as int) =~= v@);
    }
    r
}

impl MqttMessage {
    /// The message a publish stores, under its resolved topic name.
    pub fn build_message(client_id: &String, topic_name: &String, publish: &crate::packet::Publish) -> (r:
        MqttMessage)
        ensures
            msg_view(r) == (
                client_id@,
                publish.qos,
                publish.pkid,
                publish.retain,
                publish.dup,
                topic_name@,
                publish.payload@,
            ),
    {
        MqttMessage {
            client_id: client_id.clone(),
            dup: publish.dup,
            qos: publish.qos,
            pkid: publish.pkid,
            retain: publish.retain,
            topic: topic_name.clone(),
            payload: copy_payload(&publish.payload),
        }
    }

    /// The record a publish appends to the log; an empty payload yields
    /// none.
    pub fn build_record(client_id: &String, topic_name: &String, publish: &crate::packet::Publish) -> (r:
        Option<LogRecord>)
        ensures
            publish.payload@.len() == 0 <==> r is None,
            r matches Some(rec) ==> msg_view(rec.message) == (
                client_id@,
                publish.qos,
                publish.pkid,
                publish.retain,
                publish.dup,
                topic_name@,
                publish.payload@,
            ),
    {
        if publish.payload.len() == 0 {
            None
        } else {
            Some(LogRecord { message: MqttMessage::build_message(client_id, topic_name, publish) })
        }
    }
}

impl ClusterInfo {
    /// A fresh single-node configuration with protocol defaults.
    pub fn new(cluster_name: String) -> (r: ClusterInfo)
        ensures
            r.cluster_name == cluster_name,
            r.max_qos == QoS::ExactlyOnce,
            r.max_packet_size == 10485760u32,
            r.default_session_expiry == 1800u32,
            r.secure,
    {
        ClusterInfo {
            cluster_name,
            max_qos: QoS::ExactlyOnce,
            max_packet_size: 10485760,
            default_session_expiry: 1800,
            secure: true,
        }
    }
}

} // verus!
