//! Synthetic events for authorized attack simulations. The simulator only
//! makes events; the detector decides whether a rule matches.

use vstd::prelude::*;

use crate::models::{BluetoothEvent, EventType};
use crate::text::{chars_of, opt_text, string_of};
use crate::time::{utc_now, Timestamp};

verus! {

/// One synthetic event for a simulation.
pub open spec fn is_simulated_event(e: BluetoothEvent, event_type: EventType, mac: Seq<char>, description: Seq<char>) -> bool {
    &&& e.event_type == event_type
    &&& opt_text(e.mac) == Some(mac)
    &&& opt_text(e.device_name) == Some("Authorized Test Device"@)
    &&& e.rssi is None
    &&& opt_text(e.hci_interface) == Some("hci0"@)
    &&& e.connection_handle is None
    &&& e.role is None
    &&& e.encryption_enabled is None
    &&& e.key_size is None
    &&& e.l2cap_cid is None
    &&& e.service_uuid is None
    &&& e.hci_event_code is None
    &&& e.raw_line@ == description
}

/// The simulation of menu entry `choice`: event type, number of events,
/// delay between events in milliseconds, test address and description.
pub open spec fn simulation(choice: u32) -> Option<(EventType, usize, u64, Seq<char>, Seq<char>)> {
    if choice == 1 {
        Some((EventType::AdvertisingReport, 20, 300, "DE:AD:BE:EF:00:01"@, "SIMULATED Advertising Report"@))
    } else if choice == 2 {
        Some((EventType::ConnectionFailed, 3, 1000, "DE:AD:BE:EF:00:02"@, "SIMULATED Connection Failed"@))
    } else if choice == 3 {
        Some((EventType::AuthenticationFailed, 3, 1000, "DE:AD:BE:EF:00:03"@, "SIMULATED Authentication Failed"@))
    } else if choice == 4 {
        Some((EventType::PairingRequest, 5, 1000, "DE:AD:BE:EF:00:04"@, "SIMULATED Pairing Request"@))
    } else if choice == 5 {
        Some((EventType::DisconnectionComplete, 5, 1000, "DE:AD:BE:EF:00:05"@, "SIMULATED Disconnection"@))
    } else if choice == 6 {
        Some((EventType::ConnectionReestablished, 5, 1000, "DE:AD:BE:EF:00:06"@, "SIMULATED Connection Reestablished"@))
    } else if choice == 7 {
        Some((EventType::EncryptionDowngrade, 1, 100, "DE:AD:BE:EF:00:07"@, "SIMULATED Encryption Downgrade"@))
    } else if choice == 8 {
        Some((EventType::HCIError, 5, 1000, "DE:AD:BE:EF:00:08"@, "SIMULATED HCI Error"@))
    } else {
        None
    }
}

/// The rule a simulation targets.
pub open spec fn simulated_rule(choice: u32) -> Seq<char> {
    if choice == 1 {
        "Advertising Flood"@
    } else if choice == 2 {
        "Repeated Connection Failure"@
    } else if choice == 3 {
        "Authentication Brute Force"@
    } else if choice == 4 {
        "Pairing Request Flood"@
    } else if choice == 5 {
        "Repeated Disconnection Activity"@
    } else if choice == 6 {
        "Reconnection Flood"@
    } else if choice == 7 {
        "Encryption Downgrade"@
    } else if choice == 8 {
        "HCI Error Spike"@
    } else {
        "Unknown Simulation"@
    }
}

/// Makes synthetic events for simulations.
pub struct AttackSimulator;

fn text(s: &str) -> (r: String)
    ensures
        r@ == s@,
{
    string_of(chars_of(s).as_slice())
}

impl AttackSimulator {
    /// A synthetic event stamped `now`.
    pub fn create_event_at(event_type: EventType, mac: &str, description: &str, now: Timestamp) -> (r: BluetoothEvent)
        ensures
            is_simulated_event(r, event_type, mac@, description@),
            r.timestamp == now,
    {
        BluetoothEvent {
            timestamp: now,
            event_type,
            mac: Some(text(mac)),
            device_name: Some(text("Authorized Test Device")),
            rssi: None,
            hci_interface: Some(text("hci0")),
            connection_handle: None,
            role: None,
            encryption_enabled: None,
            key_size: None,
            l2cap_cid: None,
            service_uuid: None,
            hci_event_code: None,
            raw_line: text(description),
        }
    }

    /// A synthetic event stamped with the current time.
    pub fn create_event(event_type: EventType, mac: &str, description: &str) -> (r: BluetoothEvent)
        ensures
            is_simulated_event(r, event_type, mac@, description@),
    {
        let now = utc_now();
        Self::create_event_at(event_type, mac, description, now)
    }

    /// The simulation of a menu entry (see `simulation`).
    pub fn simulation_config(choice: u32) -> (r: Option<(EventType, usize, u64, &'static str, &'static str)>)
        ensures
            match r {
                Some(c) => simulation(choice) == Some((c.0, c.1, c.2, c.3@, c.4@)),
                None => simulation(choice) is None,
            },
    {
        match choice {
            1 => Some((EventType::AdvertisingReport, 20, 300, "DE:AD:BE:EF:00:01", "SIMULATED Advertising Report")),
            2 => Some((EventType::ConnectionFailed, 3, 1000, "DE:AD:BE:EF:00:02", "SIMULATED Connection Failed")),
            3 => Some((EventType::AuthenticationFailed, 3, 1000, "DE:AD:BE:EF:00:03", "SIMULATED Authentication Failed")),
            4 => Some((EventType::PairingRequest, 5, 1000, "DE:AD:BE:EF:00:04", "SIMULATED Pairing Request")),
            5 => Some((EventType::DisconnectionComplete, 5, 1000, "DE:AD:BE:EF:00:05", "SIMULATED Disconnection")),
            6 => Some((EventType::ConnectionReestablished, 5, 1000, "DE:AD:BE:EF:00:06", "SIMULATED Connection Reestablished")),
            7 => Some((EventType::EncryptionDowngrade, 1, 100, "DE:AD:BE:EF:00:07", "SIMULATED Encryption Downgrade")),
            8 => Some((EventType::HCIError, 5, 1000, "DE:AD:BE:EF:00:08", "SIMULATED HCI Error")),
            _ => None,
        }
    }

    /// The rule a simulation targets.
    pub fn rule_name(choice: u32) -> (r: &'static str)
        ensures
            r@ == simulated_rule(choice),
    {
        match choice {
            1 => "Advertising Flood",
            2 => "Repeated Connection Failure",
            3 => "Authentication Brute Force",
            4 => "Pairing Request Flood",
            5 => "Repeated Disconnection Activity",
            6 => "Reconnection Flood",
            7 => "Encryption Downgrade",
            8 => "HCI Error Spike",
            _ => "Unknown Simulation",
        }
    }
}

} // verus!
