use mqtt_broker::ack_manager::AckManager;
use mqtt_broker::handler::Mqtt5Service;
use mqtt_broker::heartbeat_cache::HeartbeatCache;
use mqtt_broker::idempotency::QosMemory;
use mqtt_broker::metadata_cache::MetadataCache;
use mqtt_broker::packet::{
    Connect, ConnectProperties, ConnectReturnCode, DisconnectPacket, DisconnectReasonCode, Login,
    MqttPacket, PingReq, PubAckReason, PubCompReason, PubRel, PubRelReason, Publish,
    PublishProperties, QoS, Subscribe, SubscribeFilter, SubscribeReasonCode, Unsubscribe,
};
use mqtt_broker::storage::{MessageLog, RetainedStore};
use mqtt_broker::subscribe_cache::SubscribeCache;
use mqtt_broker::types::User;

fn broker() -> Mqtt5Service {
    let mut cache = MetadataCache::new("test-cluster".to_string());
    cache.add_user(User {
        username: "admin".to_string(),
        password: "pwd".to_string(),
        is_superuser: true,
    });
    Mqtt5Service::new(
        cache,
        HeartbeatCache::new(7),
        MessageLog::new(),
        RetainedStore::new(),
        SubscribeCache::new(),
        AckManager::new(),
        QosMemory::new(),
    )
}

fn login() -> Option<Login> {
    Some(Login { username: "admin".to_string(), password: "pwd".to_string() })
}

fn connect_packet(client_id: &str, clean_start: bool) -> Connect {
    Connect { client_id: client_id.to_string(), clean_start, keep_alive: 60 }
}

fn do_connect(srv: &mut Mqtt5Service, connect_id: u64, client_id: &str) {
    let r = srv.connect(
        connect_id,
        connect_packet(client_id, true),
        None,
        None,
        None,
        login(),
        1000,
    );
    match r {
        MqttPacket::ConnAck(a) => assert_eq!(a.code, ConnectReturnCode::Success),
        _ => panic!("expected CONNACK"),
    }
}

fn publish_packet(topic: &str, qos: QoS, pkid: u16, payload: &[u8], retain: bool) -> Publish {
    Publish {
        dup: false,
        qos,
        pkid,
        retain,
        topic: topic.to_string(),
        payload: payload.to_vec(),
    }
}

#[test]
fn connect_new_client_assigns_id_and_binds_connection() {
    let mut srv = broker();
    let r = srv.connect(9, connect_packet("", true), None, None, None, login(), 1000);
    match r {
        MqttPacket::ConnAck(a) => {
            assert_eq!(a.code, ConnectReturnCode::Success);
            assert!(!a.session_present);
            let assigned = a.assigned_client_id.expect("an assigned client id");
            assert!(!assigned.is_empty());
            let conn = srv.metadata_cache.get_connection(9).expect("a live connection");
            assert_eq!(conn.client_id, assigned);
        },
        _ => panic!("expected CONNACK"),
    }
}

#[test]
fn connect_known_client_keeps_id() {
    let mut srv = broker();
    let r = srv.connect(1, connect_packet("c1", true), None, None, None, login(), 5);
    match r {
        MqttPacket::ConnAck(a) => {
            assert_eq!(a.code, ConnectReturnCode::Success);
            assert!(a.assigned_client_id.is_none());
            assert!(!a.session_present);
        },
        _ => panic!("expected CONNACK"),
    }
    assert_eq!(srv.metadata_cache.get_connection(1).unwrap().client_id, "c1".to_string());
}

#[test]
fn reconnect_without_clean_start_resumes_session() {
    let mut srv = broker();
    let r = srv.connect(1, connect_packet("c1", false), None, None, None, login(), 5);
    match r {
        MqttPacket::ConnAck(a) => assert!(!a.session_present),
        _ => panic!("expected CONNACK"),
    }
    srv.disconnect(1, DisconnectPacket { code: DisconnectReasonCode::NormalDisconnection, reason_string: None });
    let r2 = srv.connect(2, connect_packet("c1", false), None, None, None, login(), 9);
    match r2 {
        MqttPacket::ConnAck(a) => assert!(a.session_present),
        _ => panic!("expected CONNACK"),
    }
}

#[test]
fn connect_grants_requested_session_expiry() {
    let mut srv = broker();
    let props = Some(ConnectProperties { session_expiry_interval: Some(300), max_packet_size: None });
    let r = srv.connect(1, connect_packet("c1", true), props, None, None, login(), 5);
    match r {
        MqttPacket::ConnAck(a) => assert_eq!(a.session_expiry_interval, Some(300)),
        _ => panic!("expected CONNACK"),
    }
}

#[test]
fn connect_anonymous_on_secure_cluster_is_refused() {
    let mut srv = broker();
    let r = srv.connect(1, connect_packet("c1", true), None, None, None, None, 5);
    match r {
        MqttPacket::ConnAck(a) => assert_eq!(a.code, ConnectReturnCode::NotAuthorized),
        _ => panic!("expected CONNACK"),
    }
    assert!(srv.metadata_cache.get_connection(1).is_none());
}

#[test]
fn connect_wrong_password_is_refused() {
    let mut srv = broker();
    let bad = Some(Login { username: "admin".to_string(), password: "nope".to_string() });
    let r = srv.connect(1, connect_packet("c1", true), None, None, None, bad, 5);
    match r {
        MqttPacket::ConnAck(a) => assert_eq!(a.code, ConnectReturnCode::NotAuthorized),
        _ => panic!("expected CONNACK"),
    }
}

#[test]
fn connect_null_in_client_id_is_refused() {
    let mut srv = broker();
    let r = srv.connect(1, connect_packet("bad\u{0}id", true), None, None, None, login(), 5);
    match r {
        MqttPacket::ConnAck(a) => assert_eq!(a.code, ConnectReturnCode::BadClientId),
        _ => panic!("expected CONNACK"),
    }
}

#[test]
fn second_connect_of_same_client_supersedes_first() {
    let mut srv = broker();
    do_connect(&mut srv, 1, "dup");
    do_connect(&mut srv, 2, "dup");
    assert!(srv.metadata_cache.get_connection(1).is_none());
    assert!(srv.metadata_cache.get_connection(2).is_some());
    assert!(srv.heartbeat_manager.get_heartbeat(1).is_none());
    assert!(srv.heartbeat_manager.get_heartbeat(2).is_some());
}

#[test]
fn qos1_publish_acked_with_offset_and_logged() {
    let mut srv = broker();
    do_connect(&mut srv, 1, "c1");
    let r = srv.publish(1, publish_packet("a/b", QoS::AtLeastOnce, 7, b"hi", false), None);
    match r {
        Some(MqttPacket::PubAck(a)) => {
            assert_eq!(a.pkid, 7);
            assert_eq!(a.reason, PubAckReason::Success);
            assert_eq!(a.user_properties.len(), 1);
            assert_eq!(a.user_properties[0].0, "offset".to_string());
            assert_eq!(a.user_properties[0].1, "0".to_string());
        },
        _ => panic!("expected PUBACK"),
    }
    assert_eq!(srv.message_storage.logs.len(), 1);
    assert_eq!(srv.message_storage.logs[0].1.len(), 1);
    assert_eq!(srv.message_storage.logs[0].1[0].message.topic, "a/b".to_string());
    assert_eq!(srv.message_storage.logs[0].1[0].message.payload, b"hi".to_vec());
}

#[test]
fn qos0_publish_gets_no_reply_but_is_logged() {
    let mut srv = broker();
    do_connect(&mut srv, 1, "c1");
    let r = srv.publish(1, publish_packet("a/b", QoS::AtMostOnce, 0, b"hi", false), None);
    assert!(r.is_none());
    assert_eq!(srv.message_storage.logs[0].1.len(), 1);
}

#[test]
fn successive_publishes_get_increasing_offsets() {
    let mut srv = broker();
    do_connect(&mut srv, 1, "c1");
    srv.publish(1, publish_packet("a/b", QoS::AtLeastOnce, 1, b"x", false), None);
    let r = srv.publish(1, publish_packet("a/b", QoS::AtLeastOnce, 2, b"y", false), None);
    match r {
        Some(MqttPacket::PubAck(a)) => assert_eq!(a.user_properties[0].1, "1".to_string()),
        _ => panic!("expected PUBACK"),
    }
}

#[test]
fn qos2_duplicate_pkid_is_refused_and_entry_stays_unique() {
    let mut srv = broker();
    do_connect(&mut srv, 1, "c1");
    let r1 = srv.publish(1, publish_packet("a/b", QoS::ExactlyOnce, 9, b"hi", false), None);
    match r1 {
        Some(MqttPacket::PubRec(b)) => assert_eq!(b.pkid, 9),
        _ => panic!("expected PUBREC"),
    }
    let r2 = srv.publish(1, publish_packet("a/b", QoS::ExactlyOnce, 9, b"hi", false), None);
    match r2 {
        Some(MqttPacket::PubAck(a)) => assert_eq!(a.reason, PubAckReason::PacketIdentifierInUse),
        _ => panic!("expected PUBACK"),
    }
    let count = srv
        .idempotent_manager
        .qos_pkid
        .iter()
        .filter(|e| e.0 == "c1" && e.1 == 9)
        .count();
    assert_eq!(count, 1);
}

#[test]
fn pubrel_without_state_fails_pubcomp_and_changes_nothing() {
    let mut srv = broker();
    do_connect(&mut srv, 1, "c1");
    let r = srv.publish_rel(1, PubRel { pkid: 42, reason: PubRelReason::Success });
    match r {
        MqttPacket::PubComp(c) => {
            assert_eq!(c.pkid, 42);
            assert_eq!(c.reason, PubCompReason::PacketIdentifierNotFound);
        },
        _ => panic!("expected PUBCOMP"),
    }
    assert!(srv.idempotent_manager.qos_pkid.is_empty());
}

#[test]
fn qos2_handshake_completes_exactly_once() {
    let mut srv = broker();
    do_connect(&mut srv, 1, "c1");
    srv.publish(1, publish_packet("a/b", QoS::ExactlyOnce, 9, b"hi", false), None);
    let r1 = srv.publish_rel(1, PubRel { pkid: 9, reason: PubRelReason::Success });
    match r1 {
        MqttPacket::PubComp(c) => assert_eq!(c.reason, PubCompReason::Success),
        _ => panic!("expected PUBCOMP"),
    }
    let r2 = srv.publish_rel(1, PubRel { pkid: 9, reason: PubRelReason::Success });
    match r2 {
        MqttPacket::PubComp(c) => assert_eq!(c.reason, PubCompReason::PacketIdentifierNotFound),
        _ => panic!("expected PUBCOMP"),
    }
}

#[test]
fn empty_payload_is_rejected() {
    let mut srv = broker();
    do_connect(&mut srv, 1, "c1");
    let r = srv.publish(1, publish_packet("a/b", QoS::AtLeastOnce, 1, b"", false), None);
    match r {
        Some(MqttPacket::PubAck(a)) => assert_eq!(a.reason, PubAckReason::PayloadFormatInvalid),
        _ => panic!("expected PUBACK"),
    }
    assert!(srv.message_storage.logs.is_empty() || srv.message_storage.logs[0].1.is_empty());
}

#[test]
fn oversize_payload_is_rejected() {
    let mut srv = broker();
    srv.metadata_cache.cluster_info.max_packet_size = 4;
    do_connect(&mut srv, 1, "c1");
    let r = srv.publish(1, publish_packet("a/b", QoS::AtLeastOnce, 1, b"hello", false), None);
    match r {
        Some(MqttPacket::PubAck(a)) => assert_eq!(a.reason, PubAckReason::PayloadFormatInvalid),
        _ => panic!("expected PUBACK"),
    }
}

#[test]
fn publish_with_no_topic_and_no_alias_fails() {
    let mut srv = broker();
    do_connect(&mut srv, 1, "c1");
    let r = srv.publish(1, publish_packet("", QoS::AtLeastOnce, 1, b"hi", false), None);
    match r {
        Some(MqttPacket::PubAck(a)) => assert_eq!(a.reason, PubAckReason::UnspecifiedError),
        _ => panic!("expected PUBACK"),
    }
}

#[test]
fn topic_alias_binds_and_resolves() {
    let mut srv = broker();
    do_connect(&mut srv, 1, "c1");
    let props = Some(PublishProperties { topic_alias: Some(3) });
    srv.publish(1, publish_packet("t1", QoS::AtLeastOnce, 1, b"a", false), props.clone());
    let r = srv.publish(1, publish_packet("", QoS::AtLeastOnce, 2, b"b", false), props);
    match r {
        Some(MqttPacket::PubAck(a)) => assert_eq!(a.reason, PubAckReason::Success),
        _ => panic!("expected PUBACK"),
    }
    assert_eq!(srv.message_storage.logs.len(), 1);
    assert_eq!(srv.message_storage.logs[0].1.len(), 2);
}

#[test]
fn unbound_topic_alias_fails() {
    let mut srv = broker();
    do_connect(&mut srv, 1, "c1");
    let props = Some(PublishProperties { topic_alias: Some(9) });
    let r = srv.publish(1, publish_packet("", QoS::AtLeastOnce, 1, b"a", false), props);
    match r {
        Some(MqttPacket::PubAck(a)) => assert_eq!(a.reason, PubAckReason::UnspecifiedError),
        _ => panic!("expected PUBACK"),
    }
}

#[test]
fn subscribe_mixed_validity_grants_capped_qos() {
    let mut srv = broker();
    srv.metadata_cache.cluster_info.max_qos = QoS::AtLeastOnce;
    do_connect(&mut srv, 1, "c1");
    let sub = Subscribe {
        packet_identifier: 5,
        filters: vec![
            SubscribeFilter {
                path: "sensor/+/temp".to_string(),
                qos: QoS::ExactlyOnce,
                no_local: false,
                preserve_retain: false,
            },
            SubscribeFilter {
                path: "bad//#/x".to_string(),
                qos: QoS::AtLeastOnce,
                no_local: false,
                preserve_retain: false,
            },
        ],
    };
    let r = srv.subscribe(1, sub, None);
    match r {
        MqttPacket::SubAck(sa) => {
            assert_eq!(sa.pkid, 5);
            assert_eq!(
                sa.return_codes,
                vec![SubscribeReasonCode::QoS1, SubscribeReasonCode::TopicFilterInvalid]
            );
        },
        _ => panic!("expected SUBACK"),
    }
    assert_eq!(srv.subscribe_cache.subscriptions.len(), 1);
    assert_eq!(srv.subscribe_cache.subscriptions[0].0.1, "sensor/+/temp".to_string());
}

#[test]
fn subscribe_all_invalid_refuses_whole_packet() {
    let mut srv = broker();
    do_connect(&mut srv, 1, "c1");
    let sub = Subscribe {
        packet_identifier: 5,
        filters: vec![SubscribeFilter {
            path: "a/#/b".to_string(),
            qos: QoS::AtMostOnce,
            no_local: false,
            preserve_retain: false,
        }],
    };
    let r = srv.subscribe(1, sub, None);
    match r {
        MqttPacket::SubAck(sa) => {
            assert_eq!(sa.return_codes, vec![SubscribeReasonCode::TopicFilterInvalid]);
        },
        _ => panic!("expected SUBACK"),
    }
    assert!(srv.subscribe_cache.subscriptions.is_empty());
    assert!(srv.idempotent_manager.sub_pkid.is_empty());
}

#[test]
fn subscribe_repeated_pkid_is_refused() {
    let mut srv = broker();
    do_connect(&mut srv, 1, "c1");
    let sub = Subscribe {
        packet_identifier: 5,
        filters: vec![SubscribeFilter {
            path: "a/b".to_string(),
            qos: QoS::AtMostOnce,
            no_local: false,
            preserve_retain: false,
        }],
    };
    srv.subscribe(1, sub.clone(), None);
    let r = srv.subscribe(1, sub, None);
    match r {
        MqttPacket::SubAck(sa) => {
            assert_eq!(sa.return_codes, vec![SubscribeReasonCode::PkidInUse]);
        },
        _ => panic!("expected SUBACK"),
    }
}

#[test]
fn suback_has_one_code_per_filter() {
    let mut srv = broker();
    do_connect(&mut srv, 1, "c1");
    let sub = Subscribe {
        packet_identifier: 6,
        filters: vec![
            SubscribeFilter {
                path: "a".to_string(),
                qos: QoS::AtMostOnce,
                no_local: false,
                preserve_retain: false,
            },
            SubscribeFilter {
                path: "b".to_string(),
                qos: QoS::AtLeastOnce,
                no_local: false,
                preserve_retain: false,
            },
            SubscribeFilter {
                path: "c/#".to_string(),
                qos: QoS::ExactlyOnce,
                no_local: false,
                preserve_retain: false,
            },
        ],
    };
    let r = srv.subscribe(1, sub, None);
    match r {
        MqttPacket::SubAck(sa) => {
            assert_eq!(
                sa.return_codes,
                vec![
                    SubscribeReasonCode::QoS0,
                    SubscribeReasonCode::QoS1,
                    SubscribeReasonCode::QoS2
                ]
            );
        },
        _ => panic!("expected SUBACK"),
    }
}

#[test]
fn retained_message_is_replayed_to_new_subscriber() {
    let mut srv = broker();
    do_connect(&mut srv, 1, "c1");
    srv.publish(1, publish_packet("a/b", QoS::AtLeastOnce, 1, b"hi", true), None);
    do_connect(&mut srv, 2, "c2");
    let sub = Subscribe {
        packet_identifier: 3,
        filters: vec![SubscribeFilter {
            path: "a/+".to_string(),
            qos: QoS::AtLeastOnce,
            no_local: false,
            preserve_retain: false,
        }],
    };
    srv.subscribe(2, sub, None);
    assert_eq!(srv.response_queue.len(), 1);
    assert_eq!(srv.response_queue[0].connect_id, 2);
    match &srv.response_queue[0].packet {
        MqttPacket::Publish(p) => {
            assert_eq!(p.topic, "a/b".to_string());
            assert_eq!(p.payload, b"hi".to_vec());
            assert!(p.retain);
        },
        _ => panic!("expected a queued publish"),
    }
}

#[test]
fn unsubscribe_removes_filters_and_acknowledges_each() {
    let mut srv = broker();
    do_connect(&mut srv, 1, "c1");
    let sub = Subscribe {
        packet_identifier: 5,
        filters: vec![SubscribeFilter {
            path: "a/b".to_string(),
            qos: QoS::AtMostOnce,
            no_local: false,
            preserve_retain: false,
        }],
    };
    srv.subscribe(1, sub, None);
    let r = srv.un_subscribe(1, Unsubscribe { pkid: 5, filters: vec!["a/b".to_string()] });
    match r {
        MqttPacket::UnsubAck(ua) => {
            assert_eq!(ua.pkid, 5);
            assert_eq!(ua.reasons.len(), 1);
        },
        _ => panic!("expected UNSUBACK"),
    }
    assert!(srv.subscribe_cache.subscriptions.is_empty());
    assert!(srv.idempotent_manager.sub_pkid.is_empty());
}

#[test]
fn ping_refreshes_heartbeat() {
    let mut srv = broker();
    do_connect(&mut srv, 1, "c1");
    let r = srv.ping(1, PingReq {}, 2222);
    assert_eq!(r, MqttPacket::PingResp(mqtt_broker::packet::PingResp {}));
    assert_eq!(srv.heartbeat_manager.get_heartbeat(1).unwrap().heartbeat, 2222);
}

#[test]
fn ping_unknown_connection_disconnects() {
    let mut srv = broker();
    let r = srv.ping(77, PingReq {}, 1);
    match r {
        MqttPacket::Disconnect(d) => {
            assert_eq!(d.code, DisconnectReasonCode::UnspecifiedError);
            assert_eq!(d.reason_string, Some("not found connection in cache".to_string()));
        },
        _ => panic!("expected DISCONNECT"),
    }
}

#[test]
fn disconnect_then_publish_is_refused_until_reconnect() {
    let mut srv = broker();
    do_connect(&mut srv, 4, "c1");
    let bye = srv.disconnect(
        4,
        DisconnectPacket { code: DisconnectReasonCode::NormalDisconnection, reason_string: None },
    );
    match bye {
        Some(MqttPacket::Disconnect(d)) => {
            assert_eq!(d.code, DisconnectReasonCode::NormalDisconnection)
        },
        _ => panic!("expected DISCONNECT"),
    }
    let r = srv.publish(4, publish_packet("a/b", QoS::AtLeastOnce, 1, b"hi", false), None);
    match r {
        Some(MqttPacket::Disconnect(d)) => {
            assert_eq!(d.code, DisconnectReasonCode::UnspecifiedError);
            assert_eq!(d.reason_string, Some("not found connection in cache".to_string()));
        },
        _ => panic!("expected DISCONNECT"),
    }
    do_connect(&mut srv, 5, "c1");
    let r2 = srv.publish(5, publish_packet("a/b", QoS::AtLeastOnce, 1, b"hi", false), None);
    match r2 {
        Some(MqttPacket::PubAck(a)) => assert_eq!(a.reason, PubAckReason::Success),
        _ => panic!("expected PUBACK"),
    }
}

#[test]
fn disconnect_of_unknown_connection_is_silent() {
    let mut srv = broker();
    let r = srv.disconnect(
        4,
        DisconnectPacket { code: DisconnectReasonCode::NormalDisconnection, reason_string: None },
    );
    assert!(r.is_none());
}

#[test]
fn inbound_puback_fulfils_registered_waiter() {
    let mut srv = broker();
    do_connect(&mut srv, 1, "c1");
    srv.ack_manager.register(&"c1".to_string(), 10);
    let r = srv.publish_ack(
        1,
        mqtt_broker::packet::PubAck {
            pkid: 10,
            reason: PubAckReason::Success,
            reason_string: None,
            user_properties: Vec::new(),
        },
    );
    assert!(r.is_none());
    let w = srv.ack_manager.get(&"c1".to_string(), 10).expect("a waiter");
    let d = w.delivered.expect("a delivered acknowledgement");
    assert_eq!(d.pkid, 10);
    assert_eq!(d.ack_type, mqtt_broker::types::AckPackageType::PubAck);
}

#[test]
fn stale_pubrec_is_answered_with_pubrel() {
    let mut srv = broker();
    do_connect(&mut srv, 1, "c1");
    let r = srv.publish_rec(
        1,
        mqtt_broker::packet::PubRec { pkid: 11, user_properties: Vec::new() },
    );
    match r {
        Some(MqttPacket::PubRel(p)) => {
            assert_eq!(p.pkid, 11);
            assert_eq!(p.reason, PubRelReason::Success);
        },
        _ => panic!("expected PUBREL"),
    }
}

#[test]
fn inbound_pubcomp_fulfils_registered_waiter() {
    let mut srv = broker();
    do_connect(&mut srv, 1, "c1");
    srv.ack_manager.register(&"c1".to_string(), 12);
    let r = srv.publish_comp(
        1,
        mqtt_broker::packet::PubComp { pkid: 12, reason: PubCompReason::Success },
    );
    assert!(r.is_none());
    let w = srv.ack_manager.get(&"c1".to_string(), 12).expect("a waiter");
    assert_eq!(w.delivered.unwrap().ack_type, mqtt_broker::types::AckPackageType::PubComp);
}

#[test]
fn retain_publish_replaces_retained_message() {
    let mut srv = broker();
    do_connect(&mut srv, 1, "c1");
    srv.publish(1, publish_packet("a/b", QoS::AtLeastOnce, 1, b"first", true), None);
    srv.publish(1, publish_packet("a/b", QoS::AtLeastOnce, 2, b"second", true), None);
    assert_eq!(srv.topic_storage.retained.len(), 1);
    assert_eq!(srv.topic_storage.retained[0].1.payload, b"second".to_vec());
}

#[test]
fn cluster_max_qos_zero_caps_every_grant() {
    let mut srv = broker();
    srv.metadata_cache.cluster_info.max_qos = QoS::AtMostOnce;
    do_connect(&mut srv, 1, "c1");
    let sub = Subscribe {
        packet_identifier: 2,
        filters: vec![SubscribeFilter {
            path: "a/b".to_string(),
            qos: QoS::ExactlyOnce,
            no_local: false,
            preserve_retain: false,
        }],
    };
    let r = srv.subscribe(1, sub, None);
    match r {
        MqttPacket::SubAck(sa) => assert_eq!(sa.return_codes, vec![SubscribeReasonCode::QoS0]),
        _ => panic!("expected SUBACK"),
    }
}

#[test]
fn two_anonymous_connects_get_distinct_identifiers() {
    let mut srv = broker();
    let r1 = srv.connect(1, connect_packet("", true), None, None, None, login(), 1);
    let r2 = srv.connect(2, connect_packet("", true), None, None, None, login(), 2);
    let id1 = match r1 {
        MqttPacket::ConnAck(a) => a.assigned_client_id.unwrap(),
        _ => panic!("expected CONNACK"),
    };
    let id2 = match r2 {
        MqttPacket::ConnAck(a) => a.assigned_client_id.unwrap(),
        _ => panic!("expected CONNACK"),
    };
    assert_ne!(id1, id2);
    assert!(srv.metadata_cache.get_connection(1).is_some());
    assert!(srv.metadata_cache.get_connection(2).is_some());
}

#[test]
fn last_will_is_stored_on_the_session() {
    let mut srv = broker();
    let will = mqtt_broker::packet::LastWill {
        topic: "will/t".to_string(),
        message: b"gone".to_vec(),
        qos: QoS::AtLeastOnce,
        retain: false,
    };
    srv.connect(1, connect_packet("c1", true), None, Some(will), None, login(), 5);
    let s = srv.metadata_cache.get_session(&"c1".to_string()).expect("a session");
    assert_eq!(s.last_will.as_ref().unwrap().topic, "will/t".to_string());
    assert_eq!(s.connect_id, Some(1));
}
