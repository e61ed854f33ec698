use sensor::events::{status_name, EventGenerator};
use sensor::models::{IncidentStatus, SecurityAlert, SecurityIncident};
use sensor::prevention::{ContainmentStep, PreventionEngine};
use sensor::sender::EventSender;
use sensor::soc::{parse_soc_command, IncidentCounter, IncidentManager, SocCommand};
use sensor::time::Timestamp;

fn alert(name: &str, mac: Option<&str>) -> SecurityAlert {
    SecurityAlert {
        name: name.to_string(),
        severity: "High".to_string(),
        mac: mac.map(|m| m.to_string()),
        details: "abc".to_string(),
    }
}

fn incident(name: &str, mac: Option<&str>, status: IncidentStatus) -> SecurityIncident {
    SecurityIncident {
        id: "INC-0001".to_string(),
        created_at: Timestamp { secs: 0, nanos: 0 },
        threat_name: name.to_string(),
        severity: "High".to_string(),
        device_mac: mac.map(|m| m.to_string()),
        details: "abc".to_string(),
        status,
    }
}

#[test]
fn incidents_are_numbered_and_pending() {
    let mut m = IncidentManager::new();
    let mut c = IncidentCounter::new();
    let now = Timestamp { secs: 42, nanos: 7 };
    let a = m.create_incident_at(&mut c, &alert("Authentication Brute Force", Some("11:22:33:44:55:66")), now);
    assert_eq!(a.id, "INC-0001");
    assert_eq!(a.created_at, now);
    assert_eq!(a.status, IncidentStatus::PendingSocReview);
    assert_eq!(a.threat_name, "Authentication Brute Force");
    assert_eq!(a.device_mac.as_deref(), Some("11:22:33:44:55:66"));
    let b = m.create_incident(&mut c, &alert("Advertising Flood", None));
    assert_eq!(b.id, "INC-0002");
    assert_eq!(m.get_incident("INC-0002").unwrap().threat_name, "Advertising Flood");
    assert!(m.get_incident("INC-0003").is_none());
}

#[test]
fn approval_is_final_and_dismissals_stick() {
    let mut m = IncidentManager::new();
    let mut c = IncidentCounter::new();
    let now = Timestamp { secs: 1, nanos: 0 };
    m.create_incident_at(&mut c, &alert("Reconnection Flood", Some("AA:BB:CC:DD:EE:FF")), now);
    m.create_incident_at(&mut c, &alert("Reconnection Flood", Some("AA:BB:CC:DD:EE:FF")), now);
    assert_eq!(m.monitor("INC-0001").unwrap().status, IncidentStatus::Monitoring);
    assert_eq!(m.approve("INC-0001").unwrap().status, IncidentStatus::Approved);
    assert!(m.reject("INC-0001").is_none());
    assert!(m.monitor("INC-0001").is_none());
    assert!(m.false_positive("INC-0001").is_none());
    assert_eq!(m.approve("INC-0001").unwrap().status, IncidentStatus::Approved);
    assert_eq!(m.get_incident("INC-0001").unwrap().status, IncidentStatus::Approved);

    assert_eq!(m.false_positive("INC-0002").unwrap().status, IncidentStatus::FalsePositive);
    assert!(m.approve("INC-0002").is_none());
    assert!(m.monitor("INC-0002").is_none());
    assert_eq!(m.reject("INC-0002").unwrap().status, IncidentStatus::Rejected);
    assert_eq!(m.get_incident("INC-0002").unwrap().status, IncidentStatus::Rejected);

    assert!(m.approve("INC-0099").is_none());
    let inc = m.get_incident("INC-0001").unwrap();
    assert!(m.is_approved(inc));
}

#[test]
fn soc_commands_are_read_from_text() {
    match parse_soc_command("  APPROVE   INC-0001\n") {
        SocCommand::Approve(id) => assert_eq!(id, "INC-0001"),
        other => panic!("unexpected {:?}", other),
    }
    match parse_soc_command("False-Positive INC-0007") {
        SocCommand::FalsePositive(id) => assert_eq!(id, "INC-0007"),
        other => panic!("unexpected {:?}", other),
    }
    match parse_soc_command("reject INC-0002") {
        SocCommand::Reject(id) => assert_eq!(id, "INC-0002"),
        other => panic!("unexpected {:?}", other),
    }
    match parse_soc_command("monitor\tINC-0003") {
        SocCommand::Monitor(id) => assert_eq!(id, "INC-0003"),
        other => panic!("unexpected {:?}", other),
    }
    match parse_soc_command("Block INC-0001") {
        SocCommand::Unknown(a) => assert_eq!(a, "block"),
        other => panic!("unexpected {:?}", other),
    }
    assert!(matches!(parse_soc_command("approve"), SocCommand::Malformed));
    assert!(matches!(parse_soc_command("approve INC-0001 now"), SocCommand::Malformed));
    assert!(matches!(parse_soc_command(" \n "), SocCommand::Empty));
    assert!(matches!(parse_soc_command(""), SocCommand::Empty));
}

#[test]
fn only_approved_authorized_incidents_are_contained() {
    let engine = PreventionEngine::new(true, "38:8a:be:b6:76:ce");
    let ok = incident("Authentication Brute Force", Some("38:8A:BE:B6:76:CE"), IncidentStatus::Approved);
    let step = engine.respond(&ok);
    match &step {
        ContainmentStep::Disconnect(m) => assert_eq!(m, "38:8A:BE:B6:76:CE"),
        other => panic!("unexpected {:?}", other),
    }
    let step = engine.next_step(step, true);
    match &step {
        ContainmentStep::Block(m) => assert_eq!(m, "38:8A:BE:B6:76:CE"),
        other => panic!("unexpected {:?}", other),
    }
    assert!(matches!(engine.next_step(step, true), ContainmentStep::Done(true)));
    let failed = engine.next_step(ContainmentStep::Disconnect("X".to_string()), false);
    assert!(matches!(failed, ContainmentStep::Done(false)));
    let blocked_failed = engine.next_step(ContainmentStep::Block("X".to_string()), false);
    assert!(matches!(blocked_failed, ContainmentStep::Done(false)));

    // Lower-case addresses are compared in upper case.
    let lower = incident("Encryption Downgrade", Some("38:8a:be:b6:76:ce"), IncidentStatus::Approved);
    assert!(matches!(engine.respond(&lower), ContainmentStep::Disconnect(_)));

    let pending = incident("Authentication Brute Force", Some("38:8A:BE:B6:76:CE"), IncidentStatus::PendingSocReview);
    assert!(matches!(engine.respond(&pending), ContainmentStep::Done(false)));
    let other_device = incident("Authentication Brute Force", Some("38:8A:BE:B6:76:CF"), IncidentStatus::Approved);
    assert!(matches!(engine.respond(&other_device), ContainmentStep::Done(false)));
    let policy = incident("Advertising Flood", Some("38:8A:BE:B6:76:CE"), IncidentStatus::Approved);
    assert!(matches!(engine.respond(&policy), ContainmentStep::Done(false)));
    let no_mac = incident("Authentication Brute Force", None, IncidentStatus::Approved);
    assert!(matches!(engine.respond(&no_mac), ContainmentStep::Done(false)));
    let off = PreventionEngine::new(false, "38:8A:BE:B6:76:CE");
    assert!(matches!(off.respond(&ok), ContainmentStep::Done(false)));
}

#[test]
fn security_events_carry_the_evidence_hash() {
    let g = EventGenerator::new();
    let inc = incident("Authentication Brute Force", Some("38:8A:BE:B6:76:CE"), IncidentStatus::PendingSocReview);
    let e = g.generate(&inc);
    assert_eq!(e.event_id, "BT_EVT_0001");
    assert_eq!(e.evidence_hash, "ba7816bf8f01cfea414140de5dae2223b00361a396177a9cb410ff61f20015ad");
    assert_eq!(e.confidence, 98);
    assert_eq!(e.signature, "authentication_bruteforce");
    assert_eq!(e.action_hint, "contain_device");
    assert_eq!(e.soc_status, "PendingSocReview");
    assert_eq!(e.sensor_id, "bluetooth-sensor-01");
    assert_eq!(e.source, "hci0");
    assert_eq!(e.direction, "rx");
    assert_eq!(e.bus_type, "Bluetooth");
    assert!(e.timestamp.contains('T'));
    assert_eq!(e.details, "abc");

    let other = incident("HCI Error Spike", None, IncidentStatus::Approved);
    let e2 = g.build_event(&other, "2024-01-01T00:00:00+00:00".to_string(), &[0x01, 0xfe]);
    assert_eq!(e2.evidence_hash, "01fe");
    assert_eq!(e2.confidence, 80);
    assert_eq!(e2.signature, "generic_detection");
    assert_eq!(e2.action_hint, "log_and_alert");
    assert_eq!(e2.soc_status, "Approved");
    assert_eq!(e2.timestamp, "2024-01-01T00:00:00+00:00");
    assert_eq!(status_name(IncidentStatus::FalsePositive), "FalsePositive");
}

#[test]
fn event_files_are_numbered_after_the_largest() {
    let s = EventSender::new();
    let names: Vec<String> = vec![
        "BT_EVT_000001.json",
        "BT_EVT_000009.json",
        "notes.txt",
        "BT_EVT_x.json",
        "BT_EVT_000004.json",
        "BT_EVT_000020.txt",
    ]
    .into_iter()
    .map(|n| n.to_string())
    .collect();
    assert_eq!(s.largest_event_number(&names), 9);
    assert_eq!(s.next_event_id_from(&names), "BT_EVT_000010");
    assert_eq!(s.next_event_id_from(&Vec::new()), "BT_EVT_000001");
    let big = vec!["BT_EVT_1234567.json".to_string()];
    assert_eq!(s.next_event_id_from(&big), "BT_EVT_1234568");
}

#[test]
fn exported_events_follow_their_incident() {
    let s = EventSender::new();
    let g = EventGenerator::new();
    let mut inc = incident("Reconnection Flood", Some("AA:BB:CC:DD:EE:FF"), IncidentStatus::PendingSocReview);
    let mut e = g.build_event(&inc, "t".to_string(), &[0]);
    assert_eq!(e.action_hint, "disconnect_device");
    inc.status = IncidentStatus::Rejected;
    assert!(s.refresh_event(&mut e, &inc));
    assert_eq!(e.soc_status, "Rejected");
    assert_eq!(e.action_hint, "no_action");
    let mut other = incident("Reconnection Flood", None, IncidentStatus::Approved);
    other.id = "INC-0002".to_string();
    assert!(!s.refresh_event(&mut e, &other));
    assert_eq!(e.soc_status, "Rejected");
}

#[test]
fn incident_numbers_are_shared_across_managers() {
    let mut counter = IncidentCounter::new();
    let mut first = IncidentManager::new();
    let mut second = IncidentManager::new();
    let now = Timestamp { secs: 5, nanos: 0 };
    let a = first.create_incident_at(&mut counter, &alert("Advertising Flood", None), now);
    let b = second.create_incident_at(&mut counter, &alert("Advertising Flood", None), now);
    let c = first.create_incident(&mut counter, &alert("Encryption Downgrade", None));
    assert_eq!(a.id, "INC-0001");
    assert_eq!(b.id, "INC-0002");
    assert_eq!(c.id, "INC-0003");
    assert!(first.get_incident("INC-0002").is_none());
    assert_eq!(second.get_incident("INC-0002").unwrap().threat_name, "Advertising Flood");
}
