use mqtt_broker::ack_manager::AckManager;
use mqtt_broker::heartbeat_cache::HeartbeatCache;
use mqtt_broker::idempotency::QosMemory;
use mqtt_broker::metadata_cache::MetadataCache;
use mqtt_broker::storage::{MessageLog, RetainedStore};
use mqtt_broker::types::{
    AckPackageData, AckPackageType, ConnectionInfo, ConnectionLiveTime, LogRecord, MqttMessage,
    MqttProtocol, Session, TopicInfo, User,
};

fn cache() -> MetadataCache {
    MetadataCache::new("c".to_string())
}

fn conn(connect_id: u64, client_id: &str) -> ConnectionInfo {
    ConnectionInfo {
        connect_id,
        client_id: client_id.to_string(),
        keep_alive: 60,
        max_packet_size: 1024,
        protocol: MqttProtocol::Mqtt5,
    }
}

fn session(client_id: &str) -> Session {
    Session {
        client_id: client_id.to_string(),
        connect_id: None,
        session_expiry: 1800,
        last_will: None,
        last_will_properties: None,
        created_at: 1,
    }
}

#[test]
fn users_are_upserted_and_removed() {
    let mut c = cache();
    c.add_user(User { username: "u".to_string(), password: "a".to_string(), is_superuser: false });
    c.add_user(User { username: "u".to_string(), password: "b".to_string(), is_superuser: true });
    let u = c.get_user(&"u".to_string()).expect("a user");
    assert_eq!(u.password, "b".to_string());
    assert_eq!(c.users.len(), 1);
    c.remove_user(&"u".to_string());
    assert!(c.get_user(&"u".to_string()).is_none());
}

#[test]
fn topics_keep_their_first_identifier() {
    let mut c = cache();
    c.add_topic(&"t".to_string(), TopicInfo { topic_id: 1, topic_name: "t".to_string() });
    c.add_topic(&"t".to_string(), TopicInfo { topic_id: 9, topic_name: "t".to_string() });
    assert_eq!(c.get_topic(&"t".to_string()).unwrap().topic_id, 1);
}

#[test]
fn sessions_are_replaced_and_taken() {
    let mut c = cache();
    c.add_session(&"x".to_string(), session("x"));
    assert!(c.get_session(&"x".to_string()).is_some());
    let s = c.take_session(&"x".to_string()).expect("a session");
    assert_eq!(s.client_id, "x".to_string());
    assert!(c.get_session(&"x".to_string()).is_none());
}

#[test]
fn adding_a_connection_evicts_the_clients_old_one() {
    let mut c = cache();
    assert_eq!(c.add_connection(1, conn(1, "a")), None);
    let evicted = c.add_connection(2, conn(2, "a"));
    assert_eq!(evicted, Some(1));
    assert!(c.get_connection(1).is_none());
    assert_eq!(c.get_connection(2).unwrap().client_id, "a".to_string());
    assert_eq!(c.get_connect_id_by_client(&"a".to_string()), Some(2));
}

#[test]
fn removing_a_connection_unbinds_the_session() {
    let mut c = cache();
    let mut s = session("a");
    s.connect_id = Some(1);
    c.add_session(&"a".to_string(), s);
    c.add_connection(1, conn(1, "a"));
    c.remove_connection(1, &"a".to_string());
    assert!(c.get_connection(1).is_none());
    assert_eq!(c.get_session(&"a".to_string()).unwrap().connect_id, None);
    // A second removal is harmless.
    c.remove_connection(1, &"a".to_string());
}

#[test]
fn topic_alias_is_per_connection() {
    let mut c = cache();
    c.set_topic_alias(1, 3, &"t1".to_string());
    c.set_topic_alias(2, 3, &"t2".to_string());
    assert_eq!(c.get_topic_alias(1, 3), Some("t1".to_string()));
    assert_eq!(c.get_topic_alias(2, 3), Some("t2".to_string()));
    assert_eq!(c.get_topic_alias(1, 4), None);
}

#[test]
fn pkid_tables_are_sets() {
    let mut q = QosMemory::new();
    let cid = "c".to_string();
    assert!(!q.get_qos_pkid_data(&cid, 7));
    q.save_qos_pkid_data(&cid, 7);
    q.save_qos_pkid_data(&cid, 7);
    assert!(q.get_qos_pkid_data(&cid, 7));
    assert_eq!(q.qos_pkid.len(), 1);
    q.delete_qos_pkid_data(&cid, 7);
    assert!(!q.get_qos_pkid_data(&cid, 7));
    q.delete_qos_pkid_data(&cid, 7);
    assert!(q.qos_pkid.is_empty());
    assert!(!q.get_sub_pkid_data(&cid, 7));
    q.save_sub_pkid_data(&cid, 7);
    assert!(q.get_sub_pkid_data(&cid, 7));
}

#[test]
fn heartbeats_live_in_their_shard() {
    let mut h = HeartbeatCache::new(3);
    let lt = ConnectionLiveTime { protocol: MqttProtocol::Mqtt5, keep_live: 60, heartbeat: 5 };
    h.report_heartbeat(10, lt);
    assert_eq!(h.get_heartbeat(10).unwrap().heartbeat, 5);
    assert_eq!(h.shards[(10 % 3) as usize].len(), 1);
    let lt2 = ConnectionLiveTime { protocol: MqttProtocol::Mqtt5, keep_live: 60, heartbeat: 9 };
    h.report_heartbeat(10, lt2);
    assert_eq!(h.get_heartbeat(10).unwrap().heartbeat, 9);
    assert_eq!(h.shards[(10 % 3) as usize].len(), 1);
    h.remove_connection(10);
    assert!(h.get_heartbeat(10).is_none());
}

#[test]
fn ack_waiters_deliver_once_registered() {
    let mut a = AckManager::new();
    let cid = "c".to_string();
    assert!(!a.complete(&cid, 1, AckPackageData { ack_type: AckPackageType::PubAck, pkid: 1 }));
    a.register(&cid, 1);
    assert!(a.get(&cid, 1).unwrap().delivered.is_none());
    assert!(a.complete(&cid, 1, AckPackageData { ack_type: AckPackageType::PubRec, pkid: 1 }));
    assert_eq!(a.get(&cid, 1).unwrap().delivered.unwrap().ack_type, AckPackageType::PubRec);
    a.remove(&cid, 1);
    assert!(a.get(&cid, 1).is_none());
}

fn msg(payload: &[u8]) -> MqttMessage {
    MqttMessage {
        client_id: "c".to_string(),
        dup: false,
        qos: mqtt_broker::packet::QoS::AtLeastOnce,
        pkid: 1,
        retain: true,
        topic: "t".to_string(),
        payload: payload.to_vec(),
    }
}

#[test]
fn message_log_returns_prior_length_as_offset() {
    let mut log = MessageLog::new();
    let off = log.append_topic_message(5, vec![LogRecord { message: msg(b"a") }]).unwrap();
    assert_eq!(off, 0);
    let off2 = log
        .append_topic_message(5, vec![LogRecord { message: msg(b"b") }, LogRecord { message: msg(b"c") }])
        .unwrap();
    assert_eq!(off2, 1);
    let off3 = log.append_topic_message(6, vec![LogRecord { message: msg(b"d") }]).unwrap();
    assert_eq!(off3, 0);
}

#[test]
fn retained_store_saves_and_deletes() {
    let mut r = RetainedStore::new();
    r.save_retain_message(5, msg(b"x")).unwrap();
    assert_eq!(r.get_retain_message(5).unwrap().payload, b"x".to_vec());
    // An empty payload deletes the entry.
    r.save_retain_message(5, msg(b"")).unwrap();
    assert!(r.get_retain_message(5).is_none());
    r.save_retain_message(5, msg(b"y")).unwrap();
    r.delete_retain_message(5).unwrap();
    assert!(r.get_retain_message(5).is_none());
}
