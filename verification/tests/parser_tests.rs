use sensor::models::EventType;
use sensor::packet_builder::PacketBuilder;
use sensor::parser::packet_builder::PacketBuilder as SimpleBuilder;
use sensor::parser::{classify_packet, parse_line, parse_line_at};
use sensor::text::chars_of;
use sensor::time::Timestamp;

const ADVERTISING: [&str; 9] = [
    "> HCI Event: LE Meta Event (0x3e) plen 43",
    "      LE Advertising Report (0x02)",
    "        Num reports: 1",
    "        Event type: Connectable undirected - ADV_IND (0x00)",
    "        Address type: Random (0x01)",
    "        Address: 5c:f3:70:aa:bb:cc (Resolvable)",
    "        Data length: 31",
    "        Name (complete): Pixel 7",
    "        RSSI: -67 dBm (0xbd)",
];

const CONNECTION: [&str; 7] = [
    "> HCI Event: LE Meta Event (0x3e) plen 19",
    "      LE Connection Complete (0x01)",
    "        Status: Success (0x00)",
    "        Handle: 64",
    "        Role: Central (0x00)",
    "        Peer address type: Public (0x00)",
    "        Peer address: 00:1A:7D:DA:71:13 (OUI 00-1A-7D)",
];

const KEY_SIZE: [&str; 5] = [
    "> HCI Event: Command Complete (0x0e) plen 7",
    "      Read Encryption Key Size (0x05|0x0008) ncmd 1",
    "        Status: Success (0x00)",
    "        Handle: 64",
    "        Key size: 5",
];

const NEXT: &str = "< HCI Command: LE Set Scan Enable (0x08|0x000c) plen 2";

#[test]
fn advertising_packet_becomes_an_event() {
    let mut builder = PacketBuilder::new();
    let now = Timestamp { secs: 1_700_000_000, nanos: 5 };
    for line in ADVERTISING.iter() {
        assert!(parse_line_at(&mut builder, line, now).is_none());
    }
    let event = parse_line_at(&mut builder, NEXT, now).expect("the next record completes the packet");
    assert_eq!(event.event_type, EventType::AdvertisingReport);
    assert_eq!(event.timestamp, now);
    assert_eq!(event.mac.as_deref(), Some("5C:F3:70:AA:BB:CC"));
    assert_eq!(event.device_name.as_deref(), Some("Pixel 7"));
    assert_eq!(event.rssi, Some(-67));
    assert_eq!(event.hci_event_code.as_deref(), Some("0x3e"));
    assert_eq!(event.hci_interface.as_deref(), Some("hci0"));
    assert_eq!(event.connection_handle, None);
    assert_eq!(event.raw_line, ADVERTISING.join("\n"));
}

#[test]
fn connection_packet_carries_handle_and_role() {
    let mut builder = PacketBuilder::new();
    let mut out = Vec::new();
    for line in CONNECTION.iter() {
        out.push(builder.push_line(line));
    }
    assert!(out.iter().all(|p| p.is_none()));
    let packet = builder.push_line(NEXT).expect("packet");
    assert_eq!(packet.mac, "00:1A:7D:DA:71:13");
    assert_eq!(packet.connection_handle, Some(64));
    assert_eq!(packet.role.as_deref(), Some("Central (0x00)"));
    assert_eq!(packet.hci_event_code.as_deref(), Some("0x3e"));
    assert_eq!(
        classify_packet(&chars_of(&packet.raw_data), packet.key_size, packet.rssi),
        EventType::ConnectionComplete
    );
}

#[test]
fn short_key_is_an_encryption_downgrade() {
    let mut builder = PacketBuilder::new();
    for line in KEY_SIZE.iter() {
        assert!(parse_line(&mut builder, line).is_none());
    }
    let event = parse_line(&mut builder, NEXT).expect("event");
    assert_eq!(event.key_size, Some(5));
    assert_eq!(event.mac.as_deref(), Some("Unknown"));
    assert_eq!(event.hci_event_code.as_deref(), Some("0x0e"));
    assert_eq!(event.event_type, EventType::EncryptionDowngrade);
}

#[test]
fn classification_follows_the_rule_order() {
    let c = |s: &str, k: Option<u8>, r: Option<i16>| classify_packet(&chars_of(s), k, r);
    assert_eq!(c("HCI Event: Disconnect Complete", None, None), EventType::DisconnectionComplete);
    assert_eq!(c("Authentication Complete\nStatus: Failure", None, None), EventType::AuthenticationFailed);
    assert_eq!(c("Authentication Complete\nStatus: Success", None, None), EventType::AuthenticationComplete);
    assert_eq!(c("Encryption Change", Some(16), None), EventType::EncryptionKeySize);
    assert_eq!(c("Encryption Change", Some(6), None), EventType::EncryptionDowngrade);
    assert_eq!(c("LE Advertising Report", Some(6), None), EventType::EncryptionDowngrade);
    assert_eq!(c("ACL Data L2CAP: Connection Request", None, None), EventType::L2CAPConnectionRequest);
    assert_eq!(c("Something else", None, Some(-40)), EventType::RSSIUpdate);
    assert_eq!(c("Something else", None, None), EventType::Unknown);
}

#[test]
fn first_record_alone_gives_nothing() {
    let mut builder = PacketBuilder::new();
    assert!(builder.push_line(NEXT).is_none());
    assert!(builder.push_line("        Scanning: Enabled (0x01)").is_none());
}

#[test]
fn simple_builder_needs_an_address() {
    let mut b = SimpleBuilder::new();
    assert!(b.push_line("> HCI Event: Inquiry Complete (0x01) plen 1").is_none());
    assert!(b.push_line("        Status: Success (0x00)").is_none());
    // No address was seen: the lines are dropped.
    assert!(b.push_line("> HCI Event: Extended Inquiry Result (0x2f) plen 255").is_none());
    assert!(b.push_line("        Address: 00:1A:7D:DA:71:13 (OUI 00-1A-7D)").is_none());
    assert!(b.push_line("        Name (complete): Headset").is_none());
    assert!(b.push_line("        RSSI: -51 dBm (0xcd)").is_none());
    let p = b.push_line("@ MGMT Event: Device Found (0x0012) plen 40").expect("packet");
    assert_eq!(p.mac, "00:1A:7D:DA:71:13");
    assert_eq!(p.name.as_deref(), Some("Headset"));
    assert_eq!(p.rssi, Some(-51));
    assert_eq!(
        p.raw_data,
        "> HCI Event: Extended Inquiry Result (0x2f) plen 255\n        Address: 00:1A:7D:DA:71:13 (OUI 00-1A-7D)\n        Name (complete): Headset\n        RSSI: -51 dBm (0xcd)"
    );
}

#[test]
fn simple_builder_ignores_lower_case_addresses() {
    let mut b = SimpleBuilder::new();
    assert!(b.push_line("> HCI Event: LE Meta Event (0x3e) plen 43").is_none());
    assert!(b.push_line("        Address: 5c:f3:70:aa:bb:cc (Resolvable)").is_none());
    assert!(b.push_line("> HCI Event: LE Meta Event (0x3e) plen 43").is_none());
}

#[test]
fn one_packet_per_record_start_after_the_first() {
    let mut builder = PacketBuilder::new();
    let mut packets = Vec::new();
    for line in ADVERTISING.iter().chain(CONNECTION.iter()).chain(KEY_SIZE.iter()) {
        if let Some(p) = builder.push_line(line) {
            packets.push(p);
        }
    }
    assert_eq!(packets.len(), 2);
    assert_eq!(packets[0].raw_data, ADVERTISING.join("\n"));
    assert_eq!(packets[1].raw_data, CONNECTION.join("\n"));
    assert_eq!(packets[1].name, None);
    assert_eq!(packets[1].rssi, None);
}
