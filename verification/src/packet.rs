//! Plain data types for the MQTT v5 control packets the broker consumes and
//! produces, together with their reason codes.

use vstd::prelude::*;

verus! {

/// Quality-of-service level of a publication or subscription.
#[derive(Debug, Clone, Copy, PartialEq, Eq, Structural)]
pub enum QoS {
    AtMostOnce,
    AtLeastOnce,
    ExactlyOnce,
}

/// Numeric level of a QoS value: 0, 1 or 2.
pub open spec fn qos_level(q: QoS) -> int {
    match q {
        QoS::AtMostOnce => 0,
        QoS::AtLeastOnce => 1,
        QoS::ExactlyOnce => 2,
    }
}

/// Reason code of a CONNACK reply.
#[derive(Debug, Clone, Copy, PartialEq, Eq, Structural)]
pub enum ConnectReturnCode {
    Success,
    NotAuthorized,
    ServiceUnavailable,
    BadClientId,
}

/// Reason code of a PUBACK reply.
#[derive(Debug, Clone, Copy, PartialEq, Eq, Structural)]
pub enum PubAckReason {
    Success,
    UnspecifiedError,
    PayloadFormatInvalid,
    PacketIdentifierInUse,
}

/// Reason code of a PUBREL packet.
#[derive(Debug, Clone, Copy, PartialEq, Eq, Structural)]
pub enum PubRelReason {
    Success,
    PacketIdentifierNotFound,
}

/// Reason code of a PUBCOMP reply.
#[derive(Debug, Clone, Copy, PartialEq, Eq, Structural)]
pub enum PubCompReason {
    Success,
    PacketIdentifierNotFound,
}

/// Per-filter reason code of a SUBACK reply.
#[derive(Debug, Clone, Copy, PartialEq, Eq, Structural)]
pub enum SubscribeReasonCode {
    QoS0,
    QoS1,
    QoS2,
    TopicFilterInvalid,
    PkidInUse,
}

/// Per-filter reason code of an UNSUBACK reply.
#[derive(Debug, Clone, Copy, PartialEq, Eq, Structural)]
pub enum UnsubAckReason {
    Success,
}

/// Reason code of a DISCONNECT packet.
#[derive(Debug, Clone, Copy, PartialEq, Eq, Structural)]
pub enum DisconnectReasonCode {
    NormalDisconnection,
    UnspecifiedError,
}

/// Inbound CONNECT packet.
#[derive(Debug, Clone, PartialEq)]
pub struct Connect {
    /// Client identifier chosen by the peer; empty asks the broker to assign one.
    pub client_id: String,
    /// When true, any prior session of this client is discarded.
    pub clean_start: bool,
    /// Keep-alive interval in seconds negotiated by the peer.
    pub keep_alive: u16,
}

/// Properties attached to a CONNECT packet.
#[derive(Debug, Clone, PartialEq)]
pub struct ConnectProperties {
    pub session_expiry_interval: Option<u32>,
    pub max_packet_size: Option<u32>,
}

/// Will message registered at CONNECT time.
#[derive(Debug, Clone, PartialEq)]
pub struct LastWill {
    pub topic: String,
    pub message: Vec<u8>,
    pub qos: QoS,
    pub retain: bool,
}

/// Properties attached to a will message.
#[derive(Debug, Clone, PartialEq)]
pub struct LastWillProperties {
    pub delay_interval: Option<u32>,
}

/// Credentials presented at CONNECT time.
#[derive(Debug, Clone, PartialEq)]
pub struct Login {
    pub username: String,
    pub password: String,
}

/// CONNACK reply.
#[derive(Debug, Clone, PartialEq)]
pub struct ConnAck {
    pub code: ConnectReturnCode,
    /// True when an earlier session of the client was resumed.
    pub session_present: bool,
    /// Identifier minted by the broker when the peer sent an empty one.
    pub assigned_client_id: Option<String>,
    /// Session expiry granted to the client, in seconds.
    pub session_expiry_interval: Option<u32>,
    /// Human-readable explanation of a failure.
    pub reason_string: Option<String>,
}

/// Inbound PUBLISH packet.
#[derive(Debug, Clone, PartialEq)]
pub struct Publish {
    pub dup: bool,
    pub qos: QoS,
    pub pkid: u16,
    pub retain: bool,
    /// Topic name; empty when the peer publishes through a topic alias.
    pub topic: String,
    pub payload: Vec<u8>,
}

/// Properties attached to a PUBLISH packet.
#[derive(Debug, Clone, PartialEq)]
pub struct PublishProperties {
    pub topic_alias: Option<u16>,
}

/// PUBACK reply.
#[derive(Debug, Clone, PartialEq)]
pub struct PubAck {
    pub pkid: u16,
    pub reason: PubAckReason,
    pub reason_string: Option<String>,
    pub user_properties: Vec<(String, String)>,
}

/// PUBREC reply.
#[derive(Debug, Clone, PartialEq)]
pub struct PubRec {
    pub pkid: u16,
    pub user_properties: Vec<(String, String)>,
}

/// PUBREL packet.
#[derive(Debug, Clone, PartialEq)]
pub struct PubRel {
    pub pkid: u16,
    pub reason: PubRelReason,
}

/// PUBCOMP reply.
#[derive(Debug, Clone, PartialEq)]
pub struct PubComp {
    pub pkid: u16,
    pub reason: PubCompReason,
}

/// One topic filter of a SUBSCRIBE packet.
#[derive(Debug, Clone, PartialEq)]
pub struct SubscribeFilter {
    pub path: String,
    pub qos: QoS,
    pub no_local: bool,
    pub preserve_retain: bool,
}

/// Inbound SUBSCRIBE packet.
#[derive(Debug, Clone, PartialEq)]
pub struct Subscribe {
    pub packet_identifier: u16,
    pub filters: Vec<SubscribeFilter>,
}

/// Properties attached to a SUBSCRIBE packet.
#[derive(Debug, Clone, PartialEq)]
pub struct SubscribeProperties {
    pub subscription_identifier: Option<u32>,
}

/// SUBACK reply.
#[derive(Debug, Clone, PartialEq)]
pub struct SubAck {
    pub pkid: u16,
    pub return_codes: Vec<SubscribeReasonCode>,
}

/// Inbound UNSUBSCRIBE packet.
#[derive(Debug, Clone, PartialEq)]
pub struct Unsubscribe {
    pub pkid: u16,
    pub filters: Vec<String>,
}

/// UNSUBACK reply.
#[derive(Debug, Clone, PartialEq)]
pub struct UnsubAck {
    pub pkid: u16,
    pub reasons: Vec<UnsubAckReason>,
    pub reason_string: Option<String>,
}

/// PINGREQ packet.
#[derive(Debug, Clone, PartialEq)]
pub struct PingReq {}

/// PINGRESP reply.
#[derive(Debug, Clone, PartialEq)]
pub struct PingResp {}

/// Inbound or outbound DISCONNECT packet.
#[derive(Debug, Clone, PartialEq)]
pub struct DisconnectPacket {
    pub code: DisconnectReasonCode,
    pub reason_string: Option<String>,
}

/// Union of the packets the handler produces or forwards.
#[derive(Debug, Clone, PartialEq)]
pub enum MqttPacket {
    ConnAck(ConnAck),
    Publish(Publish),
    PubAck(PubAck),
    PubRec(PubRec),
    PubRel(PubRel),
    PubComp(PubComp),
    SubAck(SubAck),
    UnsubAck(UnsubAck),
    PingResp(PingResp),
    Disconnect(DisconnectPacket),
}

} // verus!
