use sensor::dashboard::Dashboard;
use sensor::ml::{DatasetLabeler, DatasetLoader, DeviceWindow, MLDataCollector, ModelTrainer};
use sensor::models::{BluetoothEvent, EventType};
use sensor::simulator::AttackSimulator;
use sensor::statistics::Statistics;
use sensor::time::Timestamp;

fn at(secs: i64) -> Timestamp {
    Timestamp { secs, nanos: 0 }
}

fn ev(t: EventType, mac: &str, secs: i64) -> BluetoothEvent {
    AttackSimulator::create_event_at(t, mac, "test", at(secs))
}

fn rssi(mac: &str, v: i16, secs: i64) -> BluetoothEvent {
    let mut e = ev(EventType::RSSIUpdate, mac, secs);
    e.rssi = Some(v);
    e
}

#[test]
fn dashboard_counts_sessions_once() {
    let mut d = Dashboard::new();
    assert!(!d.shows_soc_section());
    let a = "AA:AA:AA:AA:AA:01";
    d.update(&ev(EventType::ConnectionComplete, a, 0));
    d.update(&ev(EventType::ConnectionComplete, "aa:aa:aa:aa:aa:01", 0));
    d.update(&ev(EventType::DisconnectionComplete, a, 0));
    d.update(&ev(EventType::DisconnectionComplete, a, 0));
    d.update(&ev(EventType::AdvertisingReport, "BB:BB:BB:BB:BB:02", 0));
    d.update(&ev(EventType::AdvertisingReport, "Unknown", 0));
    d.update(&ev(EventType::DeviceFound, "CC:CC:CC:CC:CC:03", 0));
    d.update(&ev(EventType::ConnectionComplete, "CC:CC:CC:CC:CC:03", 0));
    d.update(&rssi(a, -50, 0));
    d.update(&ev(EventType::AuthenticationFailed, a, 0));
    d.update(&ev(EventType::PairingRequest, a, 0));
    d.threat("Advertising Flood");
    d.soc_incident("INC-0001", "PENDING SOC REVIEW");
    let f = d.figures();
    assert_eq!(f.packets, 11);
    assert_eq!(f.advertising, 2);
    assert_eq!(f.connection_sessions, 2);
    assert_eq!(f.disconnections, 1);
    assert_eq!(f.connected_devices, 1);
    assert_eq!(f.unique_devices, 3);
    assert_eq!(f.rssi_updates, 1);
    assert_eq!(f.authentication_failures, 1);
    assert_eq!(f.pairing_requests, 1);
    assert_eq!(f.threats, 1);
    assert_eq!(f.latest_threat, "Advertising Flood");
    assert_eq!(f.latest_incident, "INC-0001");
    assert_eq!(f.incident_status, "PENDING SOC REVIEW");
    assert!(d.shows_soc_section());
    assert_eq!(f.connection_sessions, f.disconnections + f.connected_devices);
}

#[test]
fn new_dashboard_shows_none() {
    let f = Dashboard::new().figures();
    assert_eq!(f.packets, 0);
    assert_eq!(f.latest_threat, "None");
    assert_eq!(f.latest_incident, "None");
    assert_eq!(f.incident_status, "None");
}

#[test]
fn statistics_count_each_threat() {
    let mut s = Statistics::new();
    assert_eq!(s.total(), 0);
    s.record("Advertising Flood");
    s.record("Authentication Brute Force");
    s.record("Advertising Flood");
    assert_eq!(
        s.entries(),
        vec![
            ("Advertising Flood".to_string(), 2),
            ("Authentication Brute Force".to_string(), 1)
        ]
    );
    assert_eq!(s.total(), 3);
    assert_eq!(s.count_of("Advertising Flood"), 2);
    assert_eq!(s.count_of("HCI Error Spike"), 0);
}

#[test]
fn ml_windows_collect_features_per_device() {
    let mut c = MLDataCollector::new("data.csv");
    assert_eq!(c.file_path(), "data.csv");
    let m = " aa:bb:cc:dd:ee:ff ";
    assert!(c.record_event_at(&ev(EventType::ConnectionComplete, m, 100), at(100)).is_none());
    assert!(c.record_event_at(&ev(EventType::DisconnectionComplete, m, 101), at(101)).is_none());
    assert!(c.record_event_at(&rssi(m, -70, 102), at(102)).is_none());
    assert!(c.record_event_at(&rssi(m, -40, 103), at(103)).is_none());
    let mut no_value = ev(EventType::RSSIUpdate, m, 104);
    no_value.rssi = None;
    assert!(c.record_event_at(&no_value, at(104)).is_none());
    assert!(c.record_event_at(&ev(EventType::RoleChange, m, 105), at(105)).is_none());
    // Ignored: no valid address.
    assert!(c.record_event_at(&ev(EventType::ConnectionComplete, "Unknown", 105), at(105)).is_none());
    assert!(c.record_event_at(&ev(EventType::ConnectionComplete, "00:00:00:00:00:00", 105), at(105)).is_none());
    assert!(c.flush_expired_at(at(129)).is_empty());
    // 30 seconds after the window started, the next event completes it.
    let done = c.record_event_at(&ev(EventType::AdvertisingReport, m, 130), at(130)).expect("window");
    assert_eq!(done.mac, "AA:BB:CC:DD:EE:FF");
    let w = done.window;
    assert_eq!(w.start_time, at(100));
    assert_eq!(w.connections, 1);
    assert_eq!(w.disconnections, 1);
    assert_eq!(w.rssi_updates, 3);
    assert_eq!(w.valid_rssi_samples, 2);
    assert_eq!(w.rssi_sum, -110);
    assert_eq!(w.rssi_min, Some(-70));
    assert_eq!(w.rssi_max, Some(-40));
    assert_eq!(w.rssi_range(), 30);
    assert_eq!(w.other_events, 1);
    assert_eq!(w.total_events, 6);
    assert_eq!(
        w.total_events,
        w.connections
            + w.disconnections
            + w.connection_failures
            + w.authentication_failures
            + w.pairing_requests
            + w.advertising_reports
            + w.rssi_updates
            + w.other_events
    );
    let rest = c.flush_all();
    assert_eq!(rest.len(), 1);
    assert_eq!(rest[0].window.advertising_reports, 1);
    assert_eq!(rest[0].window.start_time, at(130));
    assert!(c.flush_all().is_empty());
}

#[test]
fn ml_expired_windows_are_flushed() {
    let mut c = MLDataCollector::new("d.csv");
    c.record_event_at(&ev(EventType::PairingRequest, "11:11:11:11:11:11", 0), at(0));
    c.record_event_at(&ev(EventType::PairingRequest, "22:22:22:22:22:22", 10), at(10));
    let out = c.flush_expired_at(at(30));
    assert_eq!(out.len(), 1);
    assert_eq!(out[0].mac, "11:11:11:11:11:11");
    assert_eq!(out[0].window.pairing_requests, 1);
    let out = c.flush_expired_at(at(40));
    assert_eq!(out.len(), 1);
    assert_eq!(out[0].mac, "22:22:22:22:22:22");
    assert!(c.can_record(&ev(EventType::PairingRequest, "22:22:22:22:22:22", 41)));
    let live = c.record_event(&AttackSimulator::create_event(EventType::ConnectionFailed, "33:33:33:33:33:33", "x"));
    assert!(live.is_none());
    let out = c.flush_all();
    assert_eq!(out.len(), 1);
    assert_eq!(out[0].window.connection_failures, 1);
}

#[test]
fn ml_addresses_are_validated() {
    assert!(MLDataCollector::valid_mac("aa:bb:cc:dd:ee:ff"));
    assert!(MLDataCollector::valid_mac(" 01:23:45:67:89:AB\n"));
    assert!(!MLDataCollector::valid_mac("unknown"));
    assert!(!MLDataCollector::valid_mac("00:00:00:00:00:00"));
    assert!(!MLDataCollector::valid_mac("01:23:45:67:89"));
    assert!(!MLDataCollector::valid_mac("01-23-45-67-89-AB"));
    assert!(!MLDataCollector::valid_mac("0G:23:45:67:89:AB"));
    assert!(!MLDataCollector::valid_mac(""));
}

#[test]
fn fresh_window_is_empty() {
    let w = DeviceWindow::new(at(5));
    assert_eq!(w.total_events, 0);
    assert_eq!(w.rssi_range(), 0);
    assert_eq!(w.rssi_min, None);
}

fn row(connections: &str, disconnections: &str, advertising: &str) -> Vec<String> {
    let mut r: Vec<String> = vec!["mac", "ts", connections, disconnections, "0", "0", "0", advertising]
        .into_iter()
        .map(|s| s.to_string())
        .collect();
    for _ in 0..8 {
        r.push("0".to_string());
    }
    r
}

#[test]
fn dataset_rows_are_labelled() {
    let (r, attack) = DatasetLabeler::relabel_row(&row("0", "0", "10"));
    assert!(attack);
    assert_eq!(r.len(), 16);
    assert_eq!(r[15], "ATTACK");
    assert_eq!(r[7], "10");
    let (r, attack) = DatasetLabeler::relabel_row(&row("5", "5", "9"));
    assert!(attack);
    assert_eq!(r[15], "ATTACK");
    let (r, attack) = DatasetLabeler::relabel_row(&row("5", "4", "9"));
    assert!(!attack);
    assert_eq!(r[15], "NORMAL");
    let (_, attack) = DatasetLabeler::relabel_row(&row("x", "5", "bad"));
    assert!(!attack);
    assert_eq!(DatasetLoader::label_code(&r), 0);
    let mut labelled = row("0", "0", "0");
    labelled[15] = " ATTACK ".to_string();
    assert_eq!(DatasetLoader::label_code(&labelled), 1);
    assert_eq!(DatasetLoader::label_code(&vec!["ATTACK".to_string()]), 0);
}

#[test]
fn simulations_are_configured_per_choice() {
    let (t, n, delay, mac, desc) = AttackSimulator::simulation_config(1).unwrap();
    assert_eq!(t, EventType::AdvertisingReport);
    assert_eq!(n, 20);
    assert_eq!(delay, 300);
    assert_eq!(mac, "DE:AD:BE:EF:00:01");
    assert_eq!(desc, "SIMULATED Advertising Report");
    let (t, n, delay, _, _) = AttackSimulator::simulation_config(7).unwrap();
    assert_eq!(t, EventType::EncryptionDowngrade);
    assert_eq!(n, 1);
    assert_eq!(delay, 100);
    assert!(AttackSimulator::simulation_config(0).is_none());
    assert!(AttackSimulator::simulation_config(9).is_none());
    assert_eq!(AttackSimulator::rule_name(5), "Repeated Disconnection Activity");
    assert_eq!(AttackSimulator::rule_name(42), "Unknown Simulation");
    let e = AttackSimulator::create_event_at(EventType::HCIError, "DE:AD:BE:EF:00:08", "SIMULATED HCI Error", at(9));
    assert_eq!(e.device_name.as_deref(), Some("Authorized Test Device"));
    assert_eq!(e.raw_line, "SIMULATED HCI Error");
    assert_eq!(e.mac.as_deref(), Some("DE:AD:BE:EF:00:08"));
    assert_eq!(e.timestamp, at(9));
}

#[test]
fn training_accuracy_counts_matching_predictions() {
    assert_eq!(ModelTrainer::correct_predictions(&[1, 0, 1, 1], &[1, 1, 1, 0]), 2);
    assert_eq!(ModelTrainer::correct_predictions(&[1, 0, 7], &[1, 0]), 2);
    assert_eq!(ModelTrainer::correct_predictions(&[], &[]), 0);
}
