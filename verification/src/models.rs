//! The data that flows through the sensor: parsed Bluetooth events and
//! packets, alerts, SOC incidents and exported security events.

use vstd::prelude::*;

use crate::text::{chars_eq, chars_of, is_blank, opt_chars, to_upper, trim, upper_case};
use crate::time::Timestamp;

verus! {

/// The kind of a parsed Bluetooth event.
#[derive(Debug, Clone, Copy, PartialEq, Eq, Structural)]
pub enum EventType {
    AdvertisingReport,
    // Connection events
    ConnectionComplete,
    ConnectionFailed,
    DisconnectionComplete,
    ConnectionReestablished,
    // Authentication events
    AuthenticationComplete,
    AuthenticationFailed,
    // Pairing events
    PairingRequest,
    PairingComplete,
    // Encryption events
    EncryptionChange,
    EncryptionKeySize,
    EncryptionDowngrade,
    // Role telemetry
    RoleChange,
    // Signal telemetry
    RSSIUpdate,
    // Device discovery telemetry
    DeviceFound,
    DeviceLost,
    // Service discovery telemetry
    ServiceDiscovery,
    // L2CAP telemetry
    L2CAPConnectionRequest,
    L2CAPChannelOpen,
    L2CAPChannelClose,
    // Pairing security telemetry
    IOCapabilityRequest,
    UserConfirmationRequest,
    PasskeyRequest,
    // Controller telemetry
    HCIError,
    VendorSpecificEvent,
    Unknown,
}

/// One classified Bluetooth event.
#[derive(Debug)]
pub struct BluetoothEvent {
    pub timestamp: Timestamp,
    pub event_type: EventType,
    pub mac: Option<String>,
    pub device_name: Option<String>,
    pub rssi: Option<i16>,
    pub hci_interface: Option<String>,
    pub connection_handle: Option<u16>,
    pub role: Option<String>,
    pub encryption_enabled: Option<bool>,
    pub key_size: Option<u8>,
    pub l2cap_cid: Option<u16>,
    pub service_uuid: Option<String>,
    pub hci_event_code: Option<String>,
    pub raw_line: String,
}

/// One complete btmon record with the telemetry found in its lines.
#[derive(Debug)]
pub struct BluetoothPacket {
    pub mac: String,
    pub name: Option<String>,
    pub rssi: Option<i16>,
    pub connection_handle: Option<u16>,
    pub role: Option<String>,
    pub encryption_enabled: Option<bool>,
    pub key_size: Option<u8>,
    pub l2cap_cid: Option<u16>,
    pub service_uuid: Option<String>,
    pub hci_event_code: Option<String>,
    pub raw_data: String,
}

/// A detected threat, as logged in the CSV and JSON threat logs.
#[derive(Debug)]
pub struct Threat {
    pub name: String,
    pub severity: String,
    pub description: String,
    pub timestamp: String,
    pub mac: Option<String>,
    pub device_name: Option<String>,
    pub rssi: Option<i16>,
    pub raw_packet: String,
}

/// An alert raised by a detection rule.
#[derive(Debug)]
pub struct SecurityAlert {
    pub name: String,
    pub severity: String,
    pub mac: Option<String>,
    pub details: String,
}

/// Where a SOC incident stands.
#[derive(Debug, Clone, Copy, PartialEq, Eq, Structural)]
pub enum IncidentStatus {
    PendingSocReview,
    Approved,
    Rejected,
    Monitoring,
    FalsePositive,
}

/// A SOC incident created from an alert.
#[derive(Debug)]
pub struct SecurityIncident {
    pub id: String,
    pub created_at: Timestamp,
    pub threat_name: String,
    pub severity: String,
    pub device_mac: Option<String>,
    pub details: String,
    pub status: IncidentStatus,
}

/// The security event exported for the IDSM.
#[derive(Debug)]
pub struct SecurityEvent {
    pub event_id: String,
    pub sensor_id: String,
    pub timestamp: String,
    pub device_mac: Option<String>,
    pub device_name: Option<String>,
    pub bus_type: String,
    pub source: String,
    pub direction: String,
    pub event_type: String,
    pub severity: String,
    pub confidence: u8,
    pub signature: String,
    pub soc_incident: String,
    pub soc_status: String,
    pub evidence_hash: String,
    pub action_hint: String,
    pub details: String,
}

/// A copy of an optional text.
pub fn clone_opt_string(o: &Option<String>) -> (r: Option<String>)
    ensures
        r == *o,
{
    match o {
        Some(s) => Some(s.clone()),
        None => None,
    }
}

impl Clone for BluetoothEvent {
    fn clone(&self) -> (r: Self)
        ensures
            r == *self,
    {
        BluetoothEvent {
            timestamp: self.timestamp,
            event_type: self.event_type,
            mac: clone_opt_string(&self.mac),
            device_name: clone_opt_string(&self.device_name),
            rssi: self.rssi,
            hci_interface: clone_opt_string(&self.hci_interface),
            connection_handle: self.connection_handle,
            role: clone_opt_string(&self.role),
            encryption_enabled: self.encryption_enabled,
            key_size: self.key_size,
            l2cap_cid: self.l2cap_cid,
            service_uuid: clone_opt_string(&self.service_uuid),
            hci_event_code: clone_opt_string(&self.hci_event_code),
            raw_line: self.raw_line.clone(),
        }
    }
}

impl Clone for BluetoothPacket {
    fn clone(&self) -> (r: Self)
        ensures
            r == *self,
    {
        BluetoothPacket {
            mac: self.mac.clone(),
            name: clone_opt_string(&self.name),
            rssi: self.rssi,
            connection_handle: self.connection_handle,
            role: clone_opt_string(&self.role),
            encryption_enabled: self.encryption_enabled,
            key_size: self.key_size,
            l2cap_cid: self.l2cap_cid,
            service_uuid: clone_opt_string(&self.service_uuid),
            hci_event_code: clone_opt_string(&self.hci_event_code),
            raw_data: self.raw_data.clone(),
        }
    }
}

impl Clone for Threat {
    fn clone(&self) -> (r: Self)
        ensures
            r == *self,
    {
        Threat {
            name: self.name.clone(),
            severity: self.severity.clone(),
            description: self.description.clone(),
            timestamp: self.timestamp.clone(),
            mac: clone_opt_string(&self.mac),
            device_name: clone_opt_string(&self.device_name),
            rssi: self.rssi,
            raw_packet: self.raw_packet.clone(),
        }
    }
}

impl Clone for SecurityAlert {
    fn clone(&self) -> (r: Self)
        ensures
            r == *self,
    {
        SecurityAlert {
            name: self.name.clone(),
            severity: self.severity.clone(),
            mac: clone_opt_string(&self.mac),
            details: self.details.clone(),
        }
    }
}

impl Clone for SecurityIncident {
    fn clone(&self) -> (r: Self)
        ensures
            r == *self,
    {
        SecurityIncident {
            id: self.id.clone(),
            created_at: self.created_at,
            threat_name: self.threat_name.clone(),
            severity: self.severity.clone(),
            device_mac: clone_opt_string(&self.device_mac),
            details: self.details.clone(),
            status: self.status,
        }
    }
}

impl Clone for SecurityEvent {
    fn clone(&self) -> (r: Self)
        ensures
            r == *self,
    {
        SecurityEvent {
            event_id: self.event_id.clone(),
            sensor_id: self.sensor_id.clone(),
            timestamp: self.timestamp.clone(),
            device_mac: clone_opt_string(&self.device_mac),
            device_name: clone_opt_string(&self.device_name),
            bus_type: self.bus_type.clone(),
            source: self.source.clone(),
            direction: self.direction.clone(),
            event_type: self.event_type.clone(),
            severity: self.severity.clone(),
            confidence: self.confidence,
            signature: self.signature.clone(),
            soc_incident: self.soc_incident.clone(),
            soc_status: self.soc_status.clone(),
            evidence_hash: self.evidence_hash.clone(),
            action_hint: self.action_hint.clone(),
            details: self.details.clone(),
        }
    }
}

} // verus!

verus! {

/// The device address of an event, in upper case, when it has one that is
/// neither blank nor the `Unknown` placeholder.
pub open spec fn device_mac(e: BluetoothEvent) -> Option<Seq<char>> {
    match e.mac {
        Some(m) => if trim(m@).len() > 0 && m@ != "Unknown"@ {
            Some(upper_case(m@))
        } else {
            None
        },
        None => None,
    }
}

/// The device address of an event (see `device_mac`).
pub fn device_mac_of(e: &BluetoothEvent) -> (r: Option<Vec<char>>)
    ensures
        opt_chars(r) == device_mac(*e),
{
    match &e.mac {
        Some(m) => {
            let c = chars_of(m.as_str());
            let unknown = chars_of("Unknown");
            if !is_blank(c.as_slice()) && !chars_eq(c.as_slice(), unknown.as_slice()) {
                Some(to_upper(c.as_slice()))
            } else {
                None
            }
        },
        None => None,
    }
}

} // verus!
