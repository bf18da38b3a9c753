use mqtt_broker::decimal::u64_to_string;
use mqtt_broker::packet::QoS;
use mqtt_broker::topic_filter::{min_qos, sub_path_validator, topic_matches_filter};

fn valid(path: &str) -> bool {
    sub_path_validator(&path.to_string())
}

fn matches_topic(topic: &str, filter: &str) -> bool {
    topic_matches_filter(&topic.to_string(), &filter.to_string())
}

#[test]
fn plain_paths_are_valid() {
    assert!(valid("a"));
    assert!(valid("a/b"));
    assert!(valid("sensor/+/temp"));
    assert!(valid("sport/tennis/#"));
    assert!(valid("#"));
    assert!(valid("+"));
    assert!(valid("+/+"));
    assert!(valid("a//b"));
}

#[test]
fn bad_wildcard_positions_are_invalid() {
    assert!(!valid(""));
    assert!(!valid("bad//#/x"));
    assert!(!valid("a/#/b"));
    assert!(!valid("a#"));
    assert!(!valid("#/a"));
    assert!(!valid("a+"));
    assert!(!valid("+a"));
    assert!(!valid("a/b+"));
}

#[test]
fn null_bytes_are_invalid() {
    assert!(!valid("a/\u{0}b"));
    assert!(!valid("\u{0}"));
}

#[test]
fn exact_and_plus_matching() {
    assert!(matches_topic("a/b", "a/b"));
    assert!(!matches_topic("a/b", "a/c"));
    assert!(matches_topic("a/b", "a/+"));
    assert!(matches_topic("a/b", "+/b"));
    assert!(!matches_topic("a/b/c", "a/+"));
    assert!(!matches_topic("a", "a/+"));
    assert!(matches_topic("sensor/kitchen/temp", "sensor/+/temp"));
    assert!(!matches_topic("sensor/kitchen/hum", "sensor/+/temp"));
}

#[test]
fn hash_matches_remaining_levels() {
    assert!(matches_topic("a/b/c", "#"));
    assert!(matches_topic("a", "#"));
    assert!(matches_topic("a/b/c", "a/#"));
    assert!(matches_topic("a", "a/#"));
    assert!(!matches_topic("b/c", "a/#"));
}

#[test]
fn empty_levels_match_literally() {
    assert!(matches_topic("a//b", "a//b"));
    assert!(matches_topic("a//b", "a/+/b"));
    assert!(!matches_topic("a//b", "a/b"));
}

#[test]
fn min_qos_takes_the_lesser_level() {
    assert_eq!(min_qos(QoS::AtMostOnce, QoS::ExactlyOnce), QoS::AtMostOnce);
    assert_eq!(min_qos(QoS::AtLeastOnce, QoS::ExactlyOnce), QoS::AtLeastOnce);
    assert_eq!(min_qos(QoS::ExactlyOnce, QoS::AtLeastOnce), QoS::AtLeastOnce);
    assert_eq!(min_qos(QoS::ExactlyOnce, QoS::ExactlyOnce), QoS::ExactlyOnce);
    assert_eq!(min_qos(QoS::AtLeastOnce, QoS::AtMostOnce), QoS::AtMostOnce);
}

#[test]
fn decimal_rendering_is_exact() {
    assert_eq!(u64_to_string(0), "0".to_string());
    assert_eq!(u64_to_string(7), "7".to_string());
    assert_eq!(u64_to_string(10), "10".to_string());
    assert_eq!(u64_to_string(42), "42".to_string());
    assert_eq!(u64_to_string(1009), "1009".to_string());
    assert_eq!(u64_to_string(u64::MAX), "18446744073709551615".to_string());
}
