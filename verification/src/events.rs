//! Turns SOC incidents into security events for the IDSM, with a SHA-256
//! evidence hash of the incident details.

use sha2::Digest;
use vstd::prelude::*;

use crate::models::{clone_opt_string, IncidentStatus, SecurityEvent, SecurityIncident};
use crate::numtext::{hex_chars, hex_text};
use crate::text::{append_chars, chars_eq, chars_of, replace_all, replace_chars, string_of};
use crate::time::now_rfc3339;

verus! {

/// The SHA-256 digest of a byte sequence.
pub uninterp spec fn sha256_digest(data: Seq<u8>) -> Seq<u8>;

/// Hashes bytes with `sha2::Sha256::digest`; the result is named
/// `sha256_digest` of the bytes, and nothing else is claimed of it.
#[verifier::external_body]
fn sha256(data: &[u8]) -> (r: Vec<u8>)
    ensures
        r@ == sha256_digest(data@),
{
    sha2::Sha256::digest(data).to_vec()
}

/// The confidence attached to a threat.
pub open spec fn confidence_for(threat: Seq<char>) -> u8 {
    if threat == "Authentication Brute Force"@ {
        98
    } else if threat == "Suspicious Connection Cycling"@ {
        94
    } else if threat == "Advertising Flood"@ {
        91
    } else if threat == "Reconnection Flood"@ {
        95
    } else if threat == "Encryption Downgrade"@ {
        99
    } else {
        80
    }
}

/// The detection signature identifier of a threat.
pub open spec fn signature_for(threat: Seq<char>) -> Seq<char> {
    if threat == "Authentication Brute Force"@ {
        "authentication_bruteforce"@
    } else if threat == "Suspicious Connection Cycling"@ {
        "connection_cycle_detection"@
    } else if threat == "Advertising Flood"@ {
        "advertising_flood"@
    } else if threat == "Reconnection Flood"@ {
        "reconnection_flood"@
    } else if threat == "Encryption Downgrade"@ {
        "encryption_downgrade"@
    } else {
        "generic_detection"@
    }
}

/// The suggested response to a threat.
pub open spec fn action_hint_for(threat: Seq<char>) -> Seq<char> {
    if threat == "Authentication Brute Force"@ || threat == "Encryption Downgrade"@ {
        "contain_device"@
    } else if threat == "Reconnection Flood"@ {
        "disconnect_device"@
    } else if threat == "Advertising Flood"@ {
        "monitor"@
    } else {
        "log_and_alert"@
    }
}

/// The name of a status, as `{:?}` writes it.
pub open spec fn status_text(s: IncidentStatus) -> Seq<char> {
    match s {
        IncidentStatus::PendingSocReview => "PendingSocReview"@,
        IncidentStatus::Approved => "Approved"@,
        IncidentStatus::Rejected => "Rejected"@,
        IncidentStatus::Monitoring => "Monitoring"@,
        IncidentStatus::FalsePositive => "FalsePositive"@,
    }
}

/// The name of a status, as `{:?}` writes it.
pub fn status_name(s: IncidentStatus) -> (r: String)
    ensures
        r@ == status_text(s),
{
    let t = match s {
        IncidentStatus::PendingSocReview => "PendingSocReview",
        IncidentStatus::Approved => "Approved",
        IncidentStatus::Rejected => "Rejected",
        IncidentStatus::Monitoring => "Monitoring",
        IncidentStatus::FalsePositive => "FalsePositive",
    };
    string_of(chars_of(t).as_slice())
}

/// `e` is the security event of `incident`, stamped `timestamp`, with the
/// evidence hash `hash`.
pub open spec fn is_event_of_incident(e: SecurityEvent, incident: SecurityIncident, hash: Seq<char>) -> bool {
    &&& e.event_id@ == "BT_EVT_"@ + replace_all(incident.id@, "INC-"@, Seq::empty())
    &&& e.sensor_id@ == "bluetooth-sensor-01"@
    &&& e.device_mac == incident.device_mac
    &&& e.device_name is None
    &&& e.bus_type@ == "Bluetooth"@
    &&& e.source@ == "hci0"@
    &&& e.direction@ == "rx"@
    &&& e.event_type@ == incident.threat_name@
    &&& e.severity@ == incident.severity@
    &&& e.confidence == confidence_for(incident.threat_name@)
    &&& e.signature@ == signature_for(incident.threat_name@)
    &&& e.soc_incident@ == incident.id@
    &&& e.soc_status@ == status_text(incident.status)
    &&& e.evidence_hash@ == hash
    &&& e.action_hint@ == action_hint_for(incident.threat_name@)
    &&& e.details@ == incident.details@
}

fn text(s: &str) -> (r: String)
    ensures
        r@ == s@,
{
    string_of(chars_of(s).as_slice())
}

/// Builds security events from SOC incidents.
pub struct EventGenerator;

impl EventGenerator {
    /// A generator.
    pub fn new() -> (r: Self) {
        EventGenerator
    }

    /// The security event of an incident, given the time text and the
    /// SHA-256 digest of the incident details; the evidence hash is the
    /// digest in lower case hexadecimal.
    pub fn build_event(&self, incident: &SecurityIncident, timestamp: String, digest: &[u8]) -> (r: SecurityEvent)
        ensures
            is_event_of_incident(r, *incident, hex_text(digest@)),
            r.timestamp == timestamp,
    {
        let name = chars_of(incident.threat_name.as_str());
        let is = |lit: &str| -> (b: bool)
            ensures
                b == (name@ == lit@),
            { chars_eq(name.as_slice(), chars_of(lit).as_slice()) };
        let confidence: u8 = if is("Authentication Brute Force") {
            98
        } else if is("Suspicious Connection Cycling") {
            94
        } else if is("Advertising Flood") {
            91
        } else if is("Reconnection Flood") {
            95
        } else if is("Encryption Downgrade") {
            99
        } else {
            80
        };
        let signature = if is("Authentication Brute Force") {
            "authentication_bruteforce"
        } else if is("Suspicious Connection Cycling") {
            "connection_cycle_detection"
        } else if is("Advertising Flood") {
            "advertising_flood"
        } else if is("Reconnection Flood") {
            "reconnection_flood"
        } else if is("Encryption Downgrade") {
            "encryption_downgrade"
        } else {
            "generic_detection"
        };
        let action_hint = if is("Authentication Brute Force") || is("Encryption Downgrade") {
            "contain_device"
        } else if is("Reconnection Flood") {
            "disconnect_device"
        } else if is("Advertising Flood") {
            "monitor"
        } else {
            "log_and_alert"
        };
        let id = chars_of(incident.id.as_str());
        let inc = chars_of("INC-");
        proof {
            reveal_strlit("INC-");
        }
        let empty: Vec<char> = Vec::new();
        let number = replace_chars(id.as_slice(), inc.as_slice(), empty.as_slice());
        let mut event_id = chars_of("BT_EVT_");
        append_chars(&mut event_id, number.as_slice());
        SecurityEvent {
            event_id: string_of(event_id.as_slice()),
            sensor_id: text("bluetooth-sensor-01"),
            timestamp,
            device_mac: clone_opt_string(&incident.device_mac),
            device_name: None,
            bus_type: text("Bluetooth"),
            source: text("hci0"),
            direction: text("rx"),
            event_type: incident.threat_name.clone(),
            severity: incident.severity.clone(),
            confidence,
            signature: text(signature),
            soc_incident: incident.id.clone(),
            soc_status: status_name(incident.status),
            evidence_hash: string_of(hex_chars(digest).as_slice()),
            action_hint: text(action_hint),
            details: incident.details.clone(),
        }
    }

    /// The security event of an incident, stamped with the current time
    /// (RFC 3339) and with the SHA-256 of the incident details as evidence.
    pub fn generate(&self, incident: &SecurityIncident) -> (r: SecurityEvent)
        ensures
            is_event_of_incident(
                r,
                *incident,
                hex_text(sha256_digest(vstd::utf8::encode_utf8(incident.details@))),
            ),
    {
        let digest = sha256(incident.details.as_str().as_bytes());
        let timestamp = now_rfc3339();
        self.build_event(incident, timestamp, digest.as_slice())
    }
}

/// What a security event says of each threat: its confidence, detection
/// signature and suggested response. Authentication brute force (98) and
/// encryption downgrades (99) call for containing the device, reconnection
/// floods (95) for disconnecting it, advertising floods (91) for
/// monitoring; connection cycling (94) and every other threat (80) are
/// logged and alerted.
pub proof fn event_fields_by_threat(t: Seq<char>)
    ensures
        t == "Authentication Brute Force"@ ==> confidence_for(t) == 98 && signature_for(t) == "authentication_bruteforce"@ && action_hint_for(t)
            == "contain_device"@,
        t == "Suspicious Connection Cycling"@ ==> confidence_for(t) == 94 && signature_for(t) == "connection_cycle_detection"@ && action_hint_for(t)
            == "log_and_alert"@,
        t == "Advertising Flood"@ ==> confidence_for(t) == 91 && signature_for(t) == "advertising_flood"@ && action_hint_for(t)
            == "monitor"@,
        t == "Reconnection Flood"@ ==> confidence_for(t) == 95 && signature_for(t) == "reconnection_flood"@ && action_hint_for(t)
            == "disconnect_device"@,
        t == "Encryption Downgrade"@ ==> confidence_for(t) == 99 && signature_for(t) == "encryption_downgrade"@ && action_hint_for(t)
            == "contain_device"@,
        t != "Authentication Brute Force"@ && t != "Suspicious Connection Cycling"@ && t != "Advertising Flood"@ && t != "Reconnection Flood"@ && t != "Encryption Downgrade"@ ==> confidence_for(t) == 80
            && signature_for(t) == "generic_detection"@ && action_hint_for(t) == "log_and_alert"@,
{
    reveal_strlit("Advertising Flood");
    assert("Advertising Flood"@.len() == 17);
    reveal_strlit("Authentication Brute Force");
    assert("Authentication Brute Force"@.len() == 26);
    reveal_strlit("Encryption Downgrade");
    assert("Encryption Downgrade"@.len() == 20);
    reveal_strlit("Reconnection Flood");
    assert("Reconnection Flood"@.len() == 18);
    reveal_strlit("Suspicious Connection Cycling");
    assert("Suspicious Connection Cycling"@.len() == 29);
    reveal_strlit("advertising_flood");
    assert("advertising_flood"@.len() == 17);
    reveal_strlit("authentication_bruteforce");
    assert("authentication_bruteforce"@.len() == 25);
    reveal_strlit("connection_cycle_detection");
    assert("connection_cycle_detection"@.len() == 26);
    reveal_strlit("contain_device");
    assert("contain_device"@.len() == 14);
    reveal_strlit("disconnect_device");
    assert("disconnect_device"@.len() == 17);
    reveal_strlit("encryption_downgrade");
    assert("encryption_downgrade"@.len() == 20);
    reveal_strlit("generic_detection");
    assert("generic_detection"@.len() == 17);
    reveal_strlit("log_and_alert");
    assert("log_and_alert"@.len() == 13);
    reveal_strlit("monitor");
    assert("monitor"@.len() == 7);
    reveal_strlit("reconnection_flood");
    assert("reconnection_flood"@.len() == 18);
}

} // verus!
