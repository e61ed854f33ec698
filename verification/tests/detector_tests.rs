use std::collections::VecDeque;

use sensor::detector::PatternDetector;
use sensor::event_queue::EventQueue;
use sensor::models::{BluetoothEvent, EventType};
use sensor::patterns::PatternEngine;
use sensor::signatures::{load_signatures, DetectionMode};
use sensor::simulator::AttackSimulator;
use sensor::time::{seconds_between, Timestamp};

fn at(secs: i64) -> Timestamp {
    Timestamp { secs, nanos: 0 }
}

fn ev(t: EventType, mac: &str, secs: i64) -> BluetoothEvent {
    AttackSimulator::create_event_at(t, mac, "test", at(secs))
}

fn queue_of(events: Vec<BluetoothEvent>) -> VecDeque<BluetoothEvent> {
    events.into_iter().collect()
}

const T: i64 = 1_700_000_000;

#[test]
fn rule_table_has_eight_rules_in_order() {
    let r = load_signatures();
    let names: Vec<&str> = r.iter().map(|s| s.name).collect();
    assert_eq!(
        names,
        vec![
            "Advertising Flood",
            "Repeated Connection Failure",
            "Authentication Brute Force",
            "Pairing Request Flood",
            "Suspicious Connection Cycling",
            "Reconnection Flood",
            "Encryption Downgrade",
            "HCI Error Spike",
        ]
    );
    assert_eq!(r[0].threshold, 20);
    assert_eq!(r[0].window_seconds, 10);
    assert_eq!(r[4].detection_mode, DetectionMode::ConnectionCycle);
    assert_eq!(r[6].detection_mode, DetectionMode::Immediate);
    assert_eq!(r[6].severity, "High");
}

#[test]
fn advertising_flood_alerts_once_until_it_clears() {
    let mac = "aa:bb:cc:dd:ee:01";
    let mut d = PatternDetector::new();
    let events = queue_of((0..20).map(|_| ev(EventType::AdvertisingReport, mac, T)).collect());
    let alerts = d.process_at(&events, at(T));
    assert_eq!(alerts.len(), 1);
    let a = &alerts[0];
    assert_eq!(a.count, 20);
    assert_eq!(a.alert.name, "Advertising Flood");
    assert_eq!(a.alert.severity, "Medium");
    assert_eq!(a.alert.mac.as_deref(), Some("AA:BB:CC:DD:EE:01"));
    assert_eq!(
        a.alert.details,
        "Abnormally high Bluetooth advertising activity detected from one device. Device AA:BB:CC:DD:EE:01 generated 20 matching events within 10 seconds. Threshold: 20."
    );
    // Still above the threshold: no second alert.
    assert!(d.process_at(&events, at(T + 5)).is_empty());
    // Out of the window: the condition clears.
    assert!(d.process_at(&events, at(T + 11)).is_empty());
    // Back above the threshold: alerts again.
    assert_eq!(d.process_at(&events, at(T + 3)).len(), 1);
}

#[test]
fn nineteen_reports_do_not_alert() {
    let mut d = PatternDetector::new();
    let events = queue_of((0..19).map(|_| ev(EventType::AdvertisingReport, "AA:BB:CC:DD:EE:02", T)).collect());
    assert!(d.process_at(&events, at(T)).is_empty());
}

#[test]
fn counts_are_per_device_and_skip_unknown() {
    let mut d = PatternDetector::new();
    let mut v = Vec::new();
    for i in 0..3 {
        v.push(ev(EventType::AuthenticationFailed, "11:22:33:44:55:66", T - i));
        v.push(ev(EventType::AuthenticationFailed, "Unknown", T));
    }
    v.push(ev(EventType::AuthenticationFailed, "11:22:33:44:55:77", T));
    let alerts = d.process_at(&queue_of(v), at(T));
    assert_eq!(alerts.len(), 1);
    assert_eq!(alerts[0].alert.name, "Authentication Brute Force");
    assert_eq!(alerts[0].alert.severity, "High");
    assert_eq!(alerts[0].alert.mac.as_deref(), Some("11:22:33:44:55:66"));
    assert_eq!(alerts[0].count, 3);
}

#[test]
fn future_and_stale_events_are_not_counted() {
    let mut d = PatternDetector::new();
    let v = vec![
        ev(EventType::AuthenticationFailed, "11:22:33:44:55:66", T + 2),
        ev(EventType::AuthenticationFailed, "11:22:33:44:55:66", T - 31),
        ev(EventType::AuthenticationFailed, "11:22:33:44:55:66", T - 30),
        ev(EventType::AuthenticationFailed, "11:22:33:44:55:66", T),
    ];
    assert!(d.process_at(&queue_of(v), at(T)).is_empty());
}

#[test]
fn encryption_downgrade_is_immediate() {
    let mut d = PatternDetector::new();
    let v = vec![ev(EventType::EncryptionDowngrade, "de:ad:be:ef:00:07", T)];
    let alerts = d.process_at(&queue_of(v), at(T));
    assert_eq!(alerts.len(), 1);
    assert_eq!(alerts[0].alert.name, "Encryption Downgrade");
    assert_eq!(
        alerts[0].alert.details,
        "Potential Bluetooth encryption downgrade detected. Device: DE:AD:BE:EF:00:07."
    );
}

#[test]
fn connection_cycles_need_connect_then_disconnect() {
    let mac = "DE:AD:BE:EF:00:05";
    let mut v = Vec::new();
    // Disconnections alone make no cycle.
    for _ in 0..5 {
        v.push(ev(EventType::DisconnectionComplete, mac, T));
    }
    let mut d = PatternDetector::new();
    assert!(d.process_at(&queue_of(v.clone()), at(T)).is_empty());
    for _ in 0..5 {
        v.push(ev(EventType::ConnectionComplete, mac, T));
        v.push(ev(EventType::ConnectionComplete, mac, T));
        v.push(ev(EventType::DisconnectionComplete, mac, T));
    }
    let alerts = d.process_at(&queue_of(v), at(T));
    assert_eq!(alerts.len(), 1);
    assert_eq!(alerts[0].alert.name, "Suspicious Connection Cycling");
    assert_eq!(alerts[0].count, 5);
    assert_eq!(
        alerts[0].alert.details,
        "Rapid repeated Bluetooth connection and disconnection cycles detected from the same device. Device DE:AD:BE:EF:00:05 completed 5 rapid connection/disconnection cycles within 60 seconds. Threshold: 5 cycles."
    );
}

#[test]
fn current_time_detection_sees_fresh_events() {
    let mut d = PatternDetector::new();
    let v = vec![AttackSimulator::create_event(EventType::EncryptionDowngrade, "DE:AD:BE:EF:00:07", "SIMULATED Encryption Downgrade")];
    let alerts = d.process(&queue_of(v));
    assert_eq!(alerts.len(), 1);
    assert_eq!(alerts[0].alert.mac.as_deref(), Some("DE:AD:BE:EF:00:07"));
}

#[test]
fn whole_seconds_truncate_toward_zero() {
    assert_eq!(seconds_between(Timestamp { secs: 10, nanos: 0 }, Timestamp { secs: 0, nanos: 999_999_999 }), 9);
    assert_eq!(seconds_between(Timestamp { secs: 0, nanos: 1 }, Timestamp { secs: 1, nanos: 0 }), 0);
    assert_eq!(seconds_between(Timestamp { secs: 0, nanos: 0 }, Timestamp { secs: 2, nanos: 1 }), -2);
}

#[test]
fn queue_keeps_the_most_recent_events() {
    let mut q = EventQueue::new(3);
    for i in 0..5 {
        q.push(ev(EventType::Unknown, "AA:AA:AA:AA:AA:AA", i));
    }
    let secs: Vec<i64> = q.recent().iter().map(|e| e.timestamp.secs).collect();
    assert_eq!(secs, vec![2, 3, 4]);
    let mut z = EventQueue::new(0);
    z.push(ev(EventType::Unknown, "AA:AA:AA:AA:AA:AA", 1));
    z.push(ev(EventType::Unknown, "AA:AA:AA:AA:AA:AA", 2));
    assert_eq!(z.recent().len(), 1);
    assert_eq!(z.recent()[0].timestamp.secs, 2);
}

#[test]
fn pattern_engine_counts_the_whole_queue() {
    let e = PatternEngine::new();
    let mut v = Vec::new();
    for i in 0..20 {
        let mac = if i % 2 == 0 { "AA:AA:AA:AA:AA:01" } else { "AA:AA:AA:AA:AA:02" };
        v.push(ev(EventType::AdvertisingReport, mac, T));
    }
    for _ in 0..3 {
        v.push(ev(EventType::PairingRequest, "AA:AA:AA:AA:AA:03", T));
    }
    for _ in 0..2 {
        v.push(ev(EventType::AuthenticationFailed, "AA:AA:AA:AA:AA:03", T));
    }
    let q = queue_of(v);
    let r = e.analyze(&q);
    assert_eq!(r.advertising_flood, Some(20));
    assert_eq!(r.pairing_attack, None);
    let mut q2 = q;
    q2.push_back(ev(EventType::AuthenticationFailed, "AA:AA:AA:AA:AA:03", T));
    assert_eq!(e.detect_pairing_attack(&q2), Some((3, 3)));
    q2.pop_front();
    assert_eq!(e.detect_advertising_flood(&q2), None);
}
