//! Turns btmon output into classified Bluetooth events.

pub mod packet_builder;

use vstd::prelude::*;

use crate::models::{BluetoothEvent, BluetoothPacket, EventType};
use crate::packet_builder::{BuilderState, PacketBuilder, extract, no_fields, starts_packet};
use crate::text::{chars_of, contains_str as c, has_sub, join_lines, opt_text, string_of, trim};
use crate::time::{utc_now, Timestamp};

verus! {

/// The kind of event a packet's text and telemetry describe. The checks
/// go in order: advertising, disconnection, re-establishment, connection,
/// failed and completed authentication, pairing request and completion,
/// encryption downgrade, key size, encryption change, role change, L2CAP
/// request/open/close, IO capability, user confirmation, passkey, device
/// found/lost, service discovery, HCI error, vendor event, RSSI; a key size
/// below 7 makes any packet an encryption downgrade.
pub open spec fn classify(raw: Seq<char>, key_size: Option<u8>, rssi: Option<i16>) -> EventType {
    let c = |s: Seq<char>| has_sub(raw, s);
    let by_text = if c("LE Extended Advertising Report"@) || c("LE Advertising Report"@) || c(
        "LE Direct Advertising Report"@,
    ) || c("LE Periodic Advertising Report"@) {
        EventType::AdvertisingReport
    } else if c("Disconnect Complete"@) || c("Disconnection Complete"@) || c(
        "Device Disconnected"@,
    ) {
        EventType::DisconnectionComplete
    } else if c("Connection Reestablished"@) || c("Connection Re-established"@) || c(
        "Reconnection Complete"@,
    ) {
        EventType::ConnectionReestablished
    } else if c("Connect Complete"@) || c("Connection Complete"@) || c(
        "LE Connection Complete"@,
    ) || c("LE Enhanced Connection Complete"@) || c("Device Connected"@) {
        EventType::ConnectionComplete
    } else if c("Authentication Failed"@) || (c("Authentication Complete"@) && !c(
        "Status: Success"@,
    )) {
        EventType::AuthenticationFailed
    } else if c("Authentication Complete"@) {
        EventType::AuthenticationComplete
    } else if c("Pairing Request"@) {
        EventType::PairingRequest
    } else if c("Simple Pairing Complete"@) || c("Pairing Complete"@) {
        EventType::PairingComplete
    } else if c("Encryption Downgrade"@) || c("Legacy Secure Connections"@) {
        EventType::EncryptionDowngrade
    } else if key_size is Some {
        EventType::EncryptionKeySize
    } else if c("Encryption Change"@) || c("Encryption: Enabled"@) || c("Encryption: Disabled"@) {
        EventType::EncryptionChange
    } else if c("Role Change"@) || c("Role Switch"@) {
        EventType::RoleChange
    } else if c("L2CAP: Connection Request"@) || c("L2CAP Connection Request"@) || (c(
        "Connection Request"@,
    ) && c("L2CAP"@)) {
        EventType::L2CAPConnectionRequest
    } else if c("L2CAP Channel Open"@) || (c("Channel Open"@) && c("L2CAP"@)) {
        EventType::L2CAPChannelOpen
    } else if c("L2CAP Channel Close"@) || (c("Channel Close"@) && c("L2CAP"@)) {
        EventType::L2CAPChannelClose
    } else if c("IO Capability Request"@) {
        EventType::IOCapabilityRequest
    } else if c("User Confirmation Request"@) {
        EventType::UserConfirmationRequest
    } else if c("User Passkey Request"@) || c("Passkey Request"@) {
        EventType::PasskeyRequest
    } else if c("Device Found"@) {
        EventType::DeviceFound
    } else if c("Device Lost"@) {
        EventType::DeviceLost
    } else if c("Service Discovery"@) || c("Service Search"@) || c("Read By Group Type"@) {
        EventType::ServiceDiscovery
    } else if c("Hardware Error"@) || c("HCI Error"@) {
        EventType::HCIError
    } else if c("Vendor Specific"@) || c("Vendor-specific"@) {
        EventType::VendorSpecificEvent
    } else if rssi is Some {
        EventType::RSSIUpdate
    } else {
        EventType::Unknown
    };
    match key_size {
        Some(k) if k < 7 => EventType::EncryptionDowngrade,
        _ => by_text,
    }
}

/// `e` is the event made of packet `p` at time `now`.
pub open spec fn is_event_of_packet(e: BluetoothEvent, p: BluetoothPacket, now: Timestamp) -> bool {
    &&& e.timestamp == now
    &&& e.event_type == classify(p.raw_data@, p.key_size, p.rssi)
    &&& opt_text(e.mac) == Some(p.mac@)
    &&& opt_text(e.device_name) == opt_text(p.name)
    &&& e.rssi == p.rssi
    &&& opt_text(e.hci_interface) == Some("hci0"@)
    &&& e.connection_handle == p.connection_handle
    &&& opt_text(e.role) == opt_text(p.role)
    &&& e.encryption_enabled == p.encryption_enabled
    &&& e.key_size == p.key_size
    &&& e.l2cap_cid == p.l2cap_cid
    &&& opt_text(e.service_uuid) == opt_text(p.service_uuid)
    &&& opt_text(e.hci_event_code) == opt_text(p.hci_event_code)
    &&& e.raw_line@ == p.raw_data@
}

/// `e` is the event made, apart from its time, of the packet that a
/// builder in state `s` completes.
pub open spec fn is_event_of_state(e: BluetoothEvent, s: BuilderState) -> bool {
    let raw = join_lines(s.lines);
    let mac = match s.fields.mac {
        Some(m) => m,
        None => "Unknown"@,
    };
    &&& e.event_type == classify(raw, s.fields.key_size, s.fields.rssi)
    &&& opt_text(e.mac) == Some(mac)
    &&& opt_text(e.device_name) == s.fields.name
    &&& e.rssi == s.fields.rssi
    &&& opt_text(e.hci_interface) == Some("hci0"@)
    &&& e.connection_handle == s.fields.connection_handle
    &&& opt_text(e.role) == s.fields.role
    &&& e.encryption_enabled == s.fields.encryption_enabled
    &&& e.key_size == s.fields.key_size
    &&& e.l2cap_cid == s.fields.l2cap_cid
    &&& opt_text(e.service_uuid) == s.fields.service_uuid
    &&& opt_text(e.hci_event_code) == s.fields.hci_event_code
    &&& e.raw_line@ == raw
}

/// The kind of event a packet describes.
pub fn classify_packet(raw: &[char], key_size: Option<u8>, rssi: Option<i16>) -> (r: EventType)
    ensures
        r == classify(raw@, key_size, rssi),
{
    let by_text = if c(raw, "LE Extended Advertising Report") || c(raw, "LE Advertising Report")
        || c(raw, "LE Direct Advertising Report") || c(raw, "LE Periodic Advertising Report") {
        EventType::AdvertisingReport
    } else if c(raw, "Disconnect Complete") || c(raw, "Disconnection Complete") || c(
        raw,
        "Device Disconnected",
    ) {
        EventType::DisconnectionComplete
    } else if c(raw, "Connection Reestablished") || c(raw, "Connection Re-established") || c(
        raw,
        "Reconnection Complete",
    ) {
        EventType::ConnectionReestablished
    } else if c(raw, "Connect Complete") || c(raw, "Connection Complete") || c(
        raw,
        "LE Connection Complete",
    ) || c(raw, "LE Enhanced Connection Complete") || c(raw, "Device Connected") {
        EventType::ConnectionComplete
    } else if c(raw, "Authentication Failed") || (c(raw, "Authentication Complete") && !c(
        raw,
        "Status: Success",
    )) {
        EventType::AuthenticationFailed
    } else if c(raw, "Authentication Complete") {
        EventType::AuthenticationComplete
    } else if c(raw, "Pairing Request") {
        EventType::PairingRequest
    } else if c(raw, "Simple Pairing Complete") || c(raw, "Pairing Complete") {
        EventType::PairingComplete
    } else if c(raw, "Encryption Downgrade") || c(raw, "Legacy Secure Connections") {
        EventType::EncryptionDowngrade
    } else if key_size.is_some() {
        EventType::EncryptionKeySize
    } else if c(raw, "Encryption Change") || c(raw, "Encryption: Enabled") || c(
        raw,
        "Encryption: Disabled",
    ) {
        EventType::EncryptionChange
    } else if c(raw, "Role Change") || c(raw, "Role Switch") {
        EventType::RoleChange
    } else if c(raw, "L2CAP: Connection Request") || c(raw, "L2CAP Connection Request") || (c(
        raw,
        "Connection Request",
    ) && c(raw, "L2CAP")) {
        EventType::L2CAPConnectionRequest
    } else if c(raw, "L2CAP Channel Open") || (c(raw, "Channel Open") && c(raw, "L2CAP")) {
        EventType::L2CAPChannelOpen
    } else if c(raw, "L2CAP Channel Close") || (c(raw, "Channel Close") && c(raw, "L2CAP")) {
        EventType::L2CAPChannelClose
    } else if c(raw, "IO Capability Request") {
        EventType::IOCapabilityRequest
    } else if c(raw, "User Confirmation Request") {
        EventType::UserConfirmationRequest
    } else if c(raw, "User Passkey Request") || c(raw, "Passkey Request") {
        EventType::PasskeyRequest
    } else if c(raw, "Device Found") {
        EventType::DeviceFound
    } else if c(raw, "Device Lost") {
        EventType::DeviceLost
    } else if c(raw, "Service Discovery") || c(raw, "Service Search") || c(
        raw,
        "Read By Group Type",
    ) {
        EventType::ServiceDiscovery
    } else if c(raw, "Hardware Error") || c(raw, "HCI Error") {
        EventType::HCIError
    } else if c(raw, "Vendor Specific") || c(raw, "Vendor-specific") {
        EventType::VendorSpecificEvent
    } else if rssi.is_some() {
        EventType::RSSIUpdate
    } else {
        EventType::Unknown
    };
    match key_size {
        Some(k) if k < 7 => EventType::EncryptionDowngrade,
        _ => by_text,
    }
}

/// The event a packet describes, stamped with `now`.
pub fn event_from_packet(packet: BluetoothPacket, now: Timestamp) -> (e: BluetoothEvent)
    ensures
        is_event_of_packet(e, packet, now),
{
    let raw = chars_of(packet.raw_data.as_str());
    let event_type = classify_packet(raw.as_slice(), packet.key_size, packet.rssi);
    BluetoothEvent {
        timestamp: now,
        event_type,
        mac: Some(packet.mac),
        device_name: packet.name,
        rssi: packet.rssi,
        hci_interface: Some(string_of(chars_of("hci0").as_slice())),
        connection_handle: packet.connection_handle,
        role: packet.role,
        encryption_enabled: packet.encryption_enabled,
        key_size: packet.key_size,
        l2cap_cid: packet.l2cap_cid,
        service_uuid: packet.service_uuid,
        hci_event_code: packet.hci_event_code,
        raw_line: packet.raw_data,
    }
}

/// Feeds one btmon line to the builder; when it completes a packet, the
/// packet's event stamped with `now` is returned.
pub fn parse_line_at(builder: &mut PacketBuilder, line: &str, now: Timestamp) -> (r: Option<
    BluetoothEvent,
>)
    ensures
        ({
            let t = trim(line@);
            if starts_packet(t) && old(builder)@.lines.len() > 0 {
                &&& r matches Some(e) && is_event_of_state(e, old(builder)@) && e.timestamp == now
                &&& final(builder)@ == BuilderState {
                    fields: extract(no_fields(), t),
                    lines: seq![line@],
                }
            } else {
                &&& r is None
                &&& final(builder)@ == BuilderState {
                    fields: extract(old(builder)@.fields, t),
                    lines: old(builder)@.lines.push(line@),
                }
            }
        }),
{
    match builder.push_line(line) {
        Some(packet) => Some(event_from_packet(packet, now)),
        None => None,
    }
}

/// Feeds one btmon line to the builder; when it completes a packet, the
/// packet's event stamped with the current time is returned.
pub fn parse_line(builder: &mut PacketBuilder, line: &str) -> (r: Option<BluetoothEvent>)
    ensures
        ({
            let t = trim(line@);
            if starts_packet(t) && old(builder)@.lines.len() > 0 {
                &&& r matches Some(e) && is_event_of_state(e, old(builder)@)
                &&& final(builder)@ == BuilderState {
                    fields: extract(no_fields(), t),
                    lines: seq![line@],
                }
            } else {
                &&& r is None
                &&& final(builder)@ == BuilderState {
                    fields: extract(old(builder)@.fields, t),
                    lines: old(builder)@.lines.push(line@),
                }
            }
        }),
{
    let now = utc_now();
    parse_line_at(builder, line, now)
}

/// A key size below 7 octets marks any packet as a possible encryption
/// downgrade, whatever its text says.
pub proof fn short_keys_are_downgrades(raw: Seq<char>, key_size: u8, rssi: Option<i16>)
    requires
        key_size < 7,
    ensures
        classify(raw, Some(key_size), rssi) == EventType::EncryptionDowngrade,
{
}

/// A signal strength reading never overrides what the text says: it makes
/// a packet an RSSI update exactly when nothing else classifies it.
pub proof fn rssi_only_decides_unclassified_packets(raw: Seq<char>, rssi: i16)
    ensures
        (classify(raw, None, Some(rssi)) == EventType::RSSIUpdate) == (classify(raw, None, None)
            == EventType::Unknown),
        classify(raw, None, None) != EventType::Unknown ==> classify(raw, None, Some(rssi))
            == classify(raw, None, None),
{
}

/// The packet text reports an advertising report.
pub open spec fn advertising_text(raw: Seq<char>) -> bool {
    ||| has_sub(raw, "LE Extended Advertising Report"@)
    ||| has_sub(raw, "LE Advertising Report"@)
    ||| has_sub(raw, "LE Direct Advertising Report"@)
    ||| has_sub(raw, "LE Periodic Advertising Report"@)
}

/// The packet text reports a disconnection.
pub open spec fn disconnection_text(raw: Seq<char>) -> bool {
    ||| has_sub(raw, "Disconnect Complete"@)
    ||| has_sub(raw, "Disconnection Complete"@)
    ||| has_sub(raw, "Device Disconnected"@)
}

/// The packet text reports a re-established connection.
pub open spec fn reestablished_text(raw: Seq<char>) -> bool {
    ||| has_sub(raw, "Connection Reestablished"@)
    ||| has_sub(raw, "Connection Re-established"@)
    ||| has_sub(raw, "Reconnection Complete"@)
}

/// The packet text reports a completed connection.
pub open spec fn connection_text(raw: Seq<char>) -> bool {
    ||| has_sub(raw, "Connect Complete"@)
    ||| has_sub(raw, "Connection Complete"@)
    ||| has_sub(raw, "LE Connection Complete"@)
    ||| has_sub(raw, "LE Enhanced Connection Complete"@)
    ||| has_sub(raw, "Device Connected"@)
}

/// The packet text reports a failed authentication (an authentication failure, or a completion without success).
pub open spec fn auth_failed_text(raw: Seq<char>) -> bool {
    ||| has_sub(raw, "Authentication Failed"@)
    ||| (has_sub(raw, "Authentication Complete"@) && !has_sub(raw, "Status: Success"@))
}

/// The packet text reports a completed authentication.
pub open spec fn auth_complete_text(raw: Seq<char>) -> bool {
    ||| has_sub(raw, "Authentication Complete"@)
}

/// The packet text reports a pairing request.
pub open spec fn pairing_request_text(raw: Seq<char>) -> bool {
    ||| has_sub(raw, "Pairing Request"@)
}

/// The packet text reports a completed pairing.
pub open spec fn pairing_complete_text(raw: Seq<char>) -> bool {
    ||| has_sub(raw, "Simple Pairing Complete"@)
    ||| has_sub(raw, "Pairing Complete"@)
}

/// The packet text reports an encryption downgrade.
pub open spec fn downgrade_text(raw: Seq<char>) -> bool {
    ||| has_sub(raw, "Encryption Downgrade"@)
    ||| has_sub(raw, "Legacy Secure Connections"@)
}

/// The packet text reports an encryption change.
pub open spec fn encryption_change_text(raw: Seq<char>) -> bool {
    ||| has_sub(raw, "Encryption Change"@)
    ||| has_sub(raw, "Encryption: Enabled"@)
    ||| has_sub(raw, "Encryption: Disabled"@)
}

/// The packet text reports a role change.
pub open spec fn role_text(raw: Seq<char>) -> bool {
    ||| has_sub(raw, "Role Change"@)
    ||| has_sub(raw, "Role Switch"@)
}

/// The packet text reports an L2CAP connection request.
pub open spec fn l2cap_request_text(raw: Seq<char>) -> bool {
    ||| has_sub(raw, "L2CAP: Connection Request"@)
    ||| has_sub(raw, "L2CAP Connection Request"@)
    ||| (has_sub(raw, "Connection Request"@) && has_sub(raw, "L2CAP"@))
}

/// The packet text reports an L2CAP channel opening.
pub open spec fn l2cap_open_text(raw: Seq<char>) -> bool {
    ||| has_sub(raw, "L2CAP Channel Open"@)
    ||| (has_sub(raw, "Channel Open"@) && has_sub(raw, "L2CAP"@))
}

/// The packet text reports an L2CAP channel closing.
pub open spec fn l2cap_close_text(raw: Seq<char>) -> bool {
    ||| has_sub(raw, "L2CAP Channel Close"@)
    ||| (has_sub(raw, "Channel Close"@) && has_sub(raw, "L2CAP"@))
}

/// The packet text reports an IO capability request.
pub open spec fn io_capability_text(raw: Seq<char>) -> bool {
    ||| has_sub(raw, "IO Capability Request"@)
}

/// The packet text reports a user confirmation request.
pub open spec fn user_confirmation_text(raw: Seq<char>) -> bool {
    ||| has_sub(raw, "User Confirmation Request"@)
}

/// The packet text reports a passkey request.
pub open spec fn passkey_text(raw: Seq<char>) -> bool {
    ||| has_sub(raw, "User Passkey Request"@)
    ||| has_sub(raw, "Passkey Request"@)
}

/// The packet text reports a found device.
pub open spec fn device_found_text(raw: Seq<char>) -> bool {
    ||| has_sub(raw, "Device Found"@)
}

/// The packet text reports a lost device.
pub open spec fn device_lost_text(raw: Seq<char>) -> bool {
    ||| has_sub(raw, "Device Lost"@)
}

/// The packet text reports a service discovery.
pub open spec fn service_discovery_text(raw: Seq<char>) -> bool {
    ||| has_sub(raw, "Service Discovery"@)
    ||| has_sub(raw, "Service Search"@)
    ||| has_sub(raw, "Read By Group Type"@)
}

/// The packet text reports a controller error.
pub open spec fn hci_error_text(raw: Seq<char>) -> bool {
    ||| has_sub(raw, "Hardware Error"@)
    ||| has_sub(raw, "HCI Error"@)
}

/// The packet text reports a vendor-specific event.
pub open spec fn vendor_text(raw: Seq<char>) -> bool {
    ||| has_sub(raw, "Vendor Specific"@)
    ||| has_sub(raw, "Vendor-specific"@)
}

/// The kind of a packet follows the markers its text holds, in order of
/// precedence: a key size below 7 makes any packet an encryption downgrade;
/// otherwise the first of these that the packet reports decides its kind:
/// an advertising report, a disconnection, a re-established connection, a
/// completed connection, a failed then a completed authentication, a
/// pairing request, a completed pairing, an encryption downgrade, a key
/// size, an encryption change, a role change, an L2CAP request, opening or
/// closing, an IO capability, user confirmation or passkey request, a found
/// or lost device, a service discovery, a controller error, a vendor event,
/// an RSSI reading; a packet reporting none of these is unknown.
pub proof fn classification_follows_markers(raw: Seq<char>, key_size: Option<u8>, rssi: Option<i16>)
    ensures
        ({
            let k = classify(raw, key_size, rssi);
            // p_i: no key size below 7, and none of the earlier markers.
            let p0 = !(key_size matches Some(z) && z < 7);
            let p1 = p0 && !(advertising_text(raw));
            let p2 = p1 && !(disconnection_text(raw));
            let p3 = p2 && !(reestablished_text(raw));
            let p4 = p3 && !(connection_text(raw));
            let p5 = p4 && !(auth_failed_text(raw));
            let p6 = p5 && !(auth_complete_text(raw));
            let p7 = p6 && !(pairing_request_text(raw));
            let p8 = p7 && !(pairing_complete_text(raw));
            let p9 = p8 && !(downgrade_text(raw));
            let p10 = p9 && !(key_size is Some);
            let p11 = p10 && !(encryption_change_text(raw));
            let p12 = p11 && !(role_text(raw));
            let p13 = p12 && !(l2cap_request_text(raw));
            let p14 = p13 && !(l2cap_open_text(raw));
            let p15 = p14 && !(l2cap_close_text(raw));
            let p16 = p15 && !(io_capability_text(raw));
            let p17 = p16 && !(user_confirmation_text(raw));
            let p18 = p17 && !(passkey_text(raw));
            let p19 = p18 && !(device_found_text(raw));
            let p20 = p19 && !(device_lost_text(raw));
            let p21 = p20 && !(service_discovery_text(raw));
            let p22 = p21 && !(hci_error_text(raw));
            let p23 = p22 && !(vendor_text(raw));
            let p24 = p23 && !(rssi is Some);
            &&& p0 && advertising_text(raw) ==> k == EventType::AdvertisingReport
            &&& p1 && disconnection_text(raw) ==> k == EventType::DisconnectionComplete
            &&& p2 && reestablished_text(raw) ==> k == EventType::ConnectionReestablished
            &&& p3 && connection_text(raw) ==> k == EventType::ConnectionComplete
            &&& p4 && auth_failed_text(raw) ==> k == EventType::AuthenticationFailed
            &&& p5 && auth_complete_text(raw) ==> k == EventType::AuthenticationComplete
            &&& p6 && pairing_request_text(raw) ==> k == EventType::PairingRequest
            &&& p7 && pairing_complete_text(raw) ==> k == EventType::PairingComplete
            &&& p8 && downgrade_text(raw) ==> k == EventType::EncryptionDowngrade
            &&& p9 && key_size is Some ==> k == EventType::EncryptionKeySize
            &&& p10 && encryption_change_text(raw) ==> k == EventType::EncryptionChange
            &&& p11 && role_text(raw) ==> k == EventType::RoleChange
            &&& p12 && l2cap_request_text(raw) ==> k == EventType::L2CAPConnectionRequest
            &&& p13 && l2cap_open_text(raw) ==> k == EventType::L2CAPChannelOpen
            &&& p14 && l2cap_close_text(raw) ==> k == EventType::L2CAPChannelClose
            &&& p15 && io_capability_text(raw) ==> k == EventType::IOCapabilityRequest
            &&& p16 && user_confirmation_text(raw) ==> k == EventType::UserConfirmationRequest
            &&& p17 && passkey_text(raw) ==> k == EventType::PasskeyRequest
            &&& p18 && device_found_text(raw) ==> k == EventType::DeviceFound
            &&& p19 && device_lost_text(raw) ==> k == EventType::DeviceLost
            &&& p20 && service_discovery_text(raw) ==> k == EventType::ServiceDiscovery
            &&& p21 && hci_error_text(raw) ==> k == EventType::HCIError
            &&& p22 && vendor_text(raw) ==> k == EventType::VendorSpecificEvent
            &&& p23 && rssi is Some ==> k == EventType::RSSIUpdate
            &&& p24 ==> k == EventType::Unknown
        }),
{
}

} // verus!
