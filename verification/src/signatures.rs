//! The detection rules of the sensor.

use vstd::prelude::*;

use crate::models::EventType;

verus! {

/// How a rule turns events into an alert.
#[derive(Debug, Clone, Copy, PartialEq, Eq, Structural)]
pub enum DetectionMode {
    /// Count matching events from the same MAC inside the time window.
    EventCount,
    /// Count connect -> disconnect cycles from the same MAC.
    ConnectionCycle,
    /// One matching event is enough.
    Immediate,
}

/// A detection rule.
#[derive(Debug, Clone, Copy)]
pub struct Signature {
    pub name: &'static str,
    pub event_type: EventType,
    pub threshold: usize,
    pub window_seconds: i64,
    pub severity: &'static str,
    pub description: &'static str,
    pub detection_mode: DetectionMode,
}

/// `s` has the given name, event type, threshold, window, severity,
/// description and mode.
pub open spec fn is_rule(
    s: Signature,
    name: Seq<char>,
    event_type: EventType,
    threshold: usize,
    window_seconds: i64,
    severity: Seq<char>,
    description: Seq<char>,
    mode: DetectionMode,
) -> bool {
    &&& s.name@ == name
    &&& s.event_type == event_type
    &&& s.threshold == threshold
    &&& s.window_seconds == window_seconds
    &&& s.severity@ == severity
    &&& s.description@ == description
    &&& s.detection_mode == mode
}

/// The eight rules of the sensor, in the order they are checked.
pub open spec fn is_rule_table(r: Seq<Signature>) -> bool {
    &&& r.len() == 8
    &&& is_rule(r[0], "Advertising Flood"@, EventType::AdvertisingReport, 20, 10, "Medium"@,
        "Abnormally high Bluetooth advertising activity detected from one device."@,
        DetectionMode::EventCount)
    &&& is_rule(r[1], "Repeated Connection Failure"@, EventType::ConnectionFailed, 3, 30, "High"@,
        "Repeated failed Bluetooth connection attempts detected from one device."@,
        DetectionMode::EventCount)
    &&& is_rule(r[2], "Authentication Brute Force"@, EventType::AuthenticationFailed, 3, 30,
        "High"@, "Repeated Bluetooth authentication failures detected from one device."@,
        DetectionMode::EventCount)
    &&& is_rule(r[3], "Pairing Request Flood"@, EventType::PairingRequest, 5, 30, "Medium"@,
        "Abnormally frequent Bluetooth pairing requests detected from one device."@,
        DetectionMode::EventCount)
    &&& is_rule(r[4], "Suspicious Connection Cycling"@, EventType::DisconnectionComplete, 5, 60,
        "Medium"@,
        "Rapid repeated Bluetooth connection and disconnection cycles detected from the same device."@,
        DetectionMode::ConnectionCycle)
    &&& is_rule(r[5], "Reconnection Flood"@, EventType::ConnectionReestablished, 5, 30, "Medium"@,
        "Abnormally frequent Bluetooth reconnection activity detected from one device."@,
        DetectionMode::EventCount)
    &&& is_rule(r[6], "Encryption Downgrade"@, EventType::EncryptionDowngrade, 1, 60, "High"@,
        "Potential Bluetooth encryption downgrade detected."@, DetectionMode::Immediate)
    &&& is_rule(r[7], "HCI Error Spike"@, EventType::HCIError, 5, 30, "Medium"@,
        "Repeated Bluetooth controller errors detected from the same device."@,
        DetectionMode::EventCount)
}

/// The rules of the sensor.
pub fn load_signatures() -> (r: Vec<Signature>)
    ensures
        is_rule_table(r@),
{
    let mut r: Vec<Signature> = Vec::new();
    r.push(
        Signature {
            name: "Advertising Flood",
            event_type: EventType::AdvertisingReport,
            threshold: 20,
            window_seconds: 10,
            severity: "Medium",
            description: "Abnormally high Bluetooth advertising activity detected from one device.",
            detection_mode: DetectionMode::EventCount,
        },
    );
    r.push(
        Signature {
            name: "Repeated Connection Failure",
            event_type: EventType::ConnectionFailed,
            threshold: 3,
            window_seconds: 30,
            severity: "High",
            description: "Repeated failed Bluetooth connection attempts detected from one device.",
            detection_mode: DetectionMode::EventCount,
        },
    );
    r.push(
        Signature {
            name: "Authentication Brute Force",
            event_type: EventType::AuthenticationFailed,
            threshold: 3,
            window_seconds: 30,
            severity: "High",
            description: "Repeated Bluetooth authentication failures detected from one device.",
            detection_mode: DetectionMode::EventCount,
        },
    );
    r.push(
        Signature {
            name: "Pairing Request Flood",
            event_type: EventType::PairingRequest,
            threshold: 5,
            window_seconds: 30,
            severity: "Medium",
            description: "Abnormally frequent Bluetooth pairing requests detected from one device.",
            detection_mode: DetectionMode::EventCount,
        },
    );
    r.push(
        Signature {
            name: "Suspicious Connection Cycling",
            event_type: EventType::DisconnectionComplete,
            threshold: 5,
            window_seconds: 60,
            severity: "Medium",
            description: "Rapid repeated Bluetooth connection and disconnection cycles detected from the same device.",
            detection_mode: DetectionMode::ConnectionCycle,
        },
    );
    r.push(
        Signature {
            name: "Reconnection Flood",
            event_type: EventType::ConnectionReestablished,
            threshold: 5,
            window_seconds: 30,
            severity: "Medium",
            description: "Abnormally frequent Bluetooth reconnection activity detected from one device.",
            detection_mode: DetectionMode::EventCount,
        },
    );
    r.push(
        Signature {
            name: "Encryption Downgrade",
            event_type: EventType::EncryptionDowngrade,
            threshold: 1,
            window_seconds: 60,
            severity: "High",
            description: "Potential Bluetooth encryption downgrade detected.",
            detection_mode: DetectionMode::Immediate,
        },
    );
    r.push(
        Signature {
            name: "HCI Error Spike",
            event_type: EventType::HCIError,
            threshold: 5,
            window_seconds: 30,
            severity: "Medium",
            description: "Repeated Bluetooth controller errors detected from the same device.",
            detection_mode: DetectionMode::EventCount,
        },
    );
    r
}

} // verus!
