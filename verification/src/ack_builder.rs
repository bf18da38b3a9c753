//! Pure constructors for the reply packets the handler sends.  Each function
//! builds one packet; none touches any state.

use vstd::prelude::*;

use crate::packet::{
    ConnAck, ConnectReturnCode, DisconnectPacket, DisconnectReasonCode, MqttPacket, PingResp,
    PubAck, PubAckReason, PubComp, PubCompReason, PubRec, PubRel, PubRelReason, SubAck,
    SubscribeReasonCode, UnsubAck, UnsubAckReason,
};

verus! {

/// A successful CONNACK, carrying the assigned client id when the broker
/// minted one and the granted session expiry.
pub fn packet_connect_success(
    assigned_client_id: Option<String>,
    session_expiry_interval: u32,
    session_present: bool,
) -> (r: MqttPacket)
    ensures
        r == MqttPacket::ConnAck(
            ConnAck {
                code: ConnectReturnCode::Success,
                session_present,
                assigned_client_id,
                session_expiry_interval: Some(session_expiry_interval),
                reason_string: None,
            },
        ),
{
    MqttPacket::ConnAck(ConnAck {
        code: ConnectReturnCode::Success,
        session_present,
        assigned_client_id,
        session_expiry_interval: Some(session_expiry_interval),
        reason_string: None,
    })
}

/// A failed CONNACK with the given reason code and optional explanation.
pub fn packet_connect_fail(code: ConnectReturnCode, reason_string: Option<String>) -> (r:
    MqttPacket)
    ensures
        r == MqttPacket::ConnAck(
            ConnAck {
                code,
                session_present: false,
                assigned_client_id: None,
                session_expiry_interval: None,
                reason_string,
            },
        ),
{
    MqttPacket::ConnAck(ConnAck {
        code,
        session_present: false,
        assigned_client_id: None,
        session_expiry_interval: None,
        reason_string,
    })
}

/// A successful PUBACK with the caller's user properties.
pub fn pub_ack(pkid: u16, user_properties: Vec<(String, String)>) -> (r: MqttPacket)
    ensures
        r == MqttPacket::PubAck(
            PubAck { pkid, reason: PubAckReason::Success, reason_string: None, user_properties },
        ),
{
    MqttPacket::PubAck(PubAck {
        pkid,
        reason: PubAckReason::Success,
        reason_string: None,
        user_properties,
    })
}

/// A failed PUBACK with the given reason code and optional explanation.
pub fn pub_ack_fail(pkid: u16, reason: PubAckReason, reason_string: Option<String>) -> (r:
    MqttPacket)
    ensures
        r matches MqttPacket::PubAck(a) && a.pkid == pkid && a.reason == reason
            && a.reason_string == reason_string && a.user_properties@ == Seq::<(
            String,
            String,
        )>::empty(),
{
    MqttPacket::PubAck(PubAck { pkid, reason, reason_string, user_properties: Vec::new() })
}

/// A PUBREC reply with the caller's user properties.
pub fn pub_rec(pkid: u16, user_properties: Vec<(String, String)>) -> (r: MqttPacket)
    ensures
        r == MqttPacket::PubRec(PubRec { pkid, user_properties }),
{
    MqttPacket::PubRec(PubRec { pkid, user_properties })
}

/// A PUBREL packet with the given reason.
pub fn pub_rel(pkid: u16, reason: PubRelReason) -> (r: MqttPacket)
    ensures
        r == MqttPacket::PubRel(PubRel { pkid, reason }),
{
    MqttPacket::PubRel(PubRel { pkid, reason })
}

/// A successful PUBCOMP.
pub fn publish_comp_success(pkid: u16) -> (r: MqttPacket)
    ensures
        r == MqttPacket::PubComp(PubComp { pkid, reason: PubCompReason::Success }),
{
    MqttPacket::PubComp(PubComp { pkid, reason: PubCompReason::Success })
}

/// A failed PUBCOMP, sent when a PUBREL names an unknown packet identifier.
pub fn publish_comp_fail(pkid: u16) -> (r: MqttPacket)
    ensures
        r == MqttPacket::PubComp(PubComp { pkid, reason: PubCompReason::PacketIdentifierNotFound }),
{
    MqttPacket::PubComp(PubComp { pkid, reason: PubCompReason::PacketIdentifierNotFound })
}

/// A SUBACK carrying one reason code per requested filter.
pub fn sub_ack(pkid: u16, return_codes: Vec<SubscribeReasonCode>) -> (r: MqttPacket)
    ensures
        r == MqttPacket::SubAck(SubAck { pkid, return_codes }),
{
    MqttPacket::SubAck(SubAck { pkid, return_codes })
}

/// An UNSUBACK carrying one reason code per removed filter.
pub fn unsub_ack(pkid: u16, reason_string: Option<String>, reasons: Vec<UnsubAckReason>) -> (r:
    MqttPacket)
    ensures
        r == MqttPacket::UnsubAck(UnsubAck { pkid, reasons, reason_string }),
{
    MqttPacket::UnsubAck(UnsubAck { pkid, reasons, reason_string })
}

/// A PINGRESP reply.
pub fn ping_resp() -> (r: MqttPacket)
    ensures
        r == MqttPacket::PingResp(PingResp {  }),
{
    MqttPacket::PingResp(PingResp {  })
}

/// A DISCONNECT packet with the given reason code and optional explanation.
pub fn distinct(code: DisconnectReasonCode, reason_string: Option<String>) -> (r: MqttPacket)
    ensures
        r == MqttPacket::Disconnect(DisconnectPacket { code, reason_string }),
{
    MqttPacket::Disconnect(DisconnectPacket { code, reason_string })
}

} // verus!
