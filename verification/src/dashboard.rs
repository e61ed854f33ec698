//! Live session counters shown on the sensor's dashboard.

use vstd::prelude::*;

use crate::models::{device_mac, device_mac_of, BluetoothEvent, EventType};
use crate::text::{chars_eq, chars_of, string_of};
use crate::textmap::TextMap;

verus! {

/// What the dashboard holds.
pub struct DashboardView {
    pub packets: nat,
    pub advertising: nat,
    pub connection_sessions: nat,
    pub disconnections: nat,
    pub discovered: Set<Seq<char>>,
    pub connected: Set<Seq<char>>,
    pub rssi_updates: nat,
    pub authentication_failures: nat,
    pub pairing_requests: nat,
    pub threats: nat,
    pub latest_threat: Seq<char>,
    pub latest_incident: Seq<char>,
    pub incident_status: Seq<char>,
}

/// The dashboard after one more event: every event counts as a packet;
/// advertising, device-found and connection events make their device known;
/// a connection counts as a session only when the device was not connected;
/// a disconnection counts only when it was.
pub open spec fn after_event(d: DashboardView, e: BluetoothEvent) -> DashboardView {
    let d1 = DashboardView { packets: d.packets + 1, ..d };
    let m = device_mac(e);
    match e.event_type {
        EventType::AdvertisingReport => DashboardView {
            advertising: d.advertising + 1,
            discovered: match m {
                Some(x) => d.discovered.insert(x),
                None => d.discovered,
            },
            ..d1
        },
        EventType::ConnectionComplete => match m {
            Some(x) => DashboardView {
                discovered: d.discovered.insert(x),
                connected: d.connected.insert(x),
                connection_sessions: if d.connected.contains(x) {
                    d.connection_sessions
                } else {
                    d.connection_sessions + 1
                },
                ..d1
            },
            None => d1,
        },
        EventType::DisconnectionComplete => match m {
            Some(x) => if d.connected.contains(x) {
                DashboardView {
                    connected: d.connected.remove(x),
                    disconnections: d.disconnections + 1,
                    ..d1
                }
            } else {
                d1
            },
            None => d1,
        },
        EventType::DeviceFound => match m {
            Some(x) => DashboardView { discovered: d.discovered.insert(x), ..d1 },
            None => d1,
        },
        EventType::RSSIUpdate => DashboardView { rssi_updates: d.rssi_updates + 1, ..d1 },
        EventType::AuthenticationFailed => DashboardView {
            authentication_failures: d.authentication_failures + 1,
            ..d1
        },
        EventType::PairingRequest => DashboardView { pairing_requests: d.pairing_requests + 1, ..d1 },
        _ => d1,
    }
}

/// The live dashboard of a monitoring session.
pub struct Dashboard {
    packets: usize,
    advertising: usize,
    connection_sessions: usize,
    disconnections: usize,
    discovered_devices: TextMap<()>,
    connected_devices: TextMap<()>,
    rssi_updates: usize,
    authentication_failures: usize,
    pairing_requests: usize,
    threats: usize,
    latest_threat: String,
    latest_incident: String,
    incident_status: String,
}

impl View for Dashboard {
    type V = DashboardView;

    closed spec fn view(&self) -> DashboardView {
        DashboardView {
            packets: self.packets as nat,
            advertising: self.advertising as nat,
            connection_sessions: self.connection_sessions as nat,
            disconnections: self.disconnections as nat,
            discovered: self.discovered_devices@.dom(),
            connected: self.connected_devices@.dom(),
            rssi_updates: self.rssi_updates as nat,
            authentication_failures: self.authentication_failures as nat,
            pairing_requests: self.pairing_requests as nat,
            threats: self.threats as nat,
            latest_threat: self.latest_threat@,
            latest_incident: self.latest_incident@,
            incident_status: self.incident_status@,
        }
    }
}

/// The figures the dashboard shows.
#[derive(Debug)]
pub struct DashboardFigures {
    pub packets: usize,
    pub advertising: usize,
    pub connected_devices: usize,
    pub connection_sessions: usize,
    pub disconnections: usize,
    pub unique_devices: usize,
    pub rssi_updates: usize,
    pub authentication_failures: usize,
    pub pairing_requests: usize,
    pub threats: usize,
    pub latest_threat: String,
    pub latest_incident: String,
    pub incident_status: String,
}

impl Dashboard {
    /// Every per-event counter is at most the number of packets, the
    /// device sets are held consistently, and the sessions are balanced.
    pub closed spec fn wf(&self) -> bool {
        &&& self.discovered_devices.wf()
        &&& self.connected_devices.wf()
        &&& self.advertising <= self.packets
        &&& self.connection_sessions <= self.packets
        &&& self.disconnections <= self.packets
        &&& self.rssi_updates <= self.packets
        &&& self.authentication_failures <= self.packets
        &&& self.pairing_requests <= self.packets
        &&& sessions_balanced(self@)
    }

    /// A dashboard with nothing counted and `None` as latest threat and
    /// incident.
    pub fn new() -> (r: Self)
        ensures
            r.wf(),
            r@.packets == 0 && r@.advertising == 0 && r@.connection_sessions == 0
                && r@.disconnections == 0 && r@.rssi_updates == 0 && r@.authentication_failures == 0
                && r@.pairing_requests == 0 && r@.threats == 0,
            r@.discovered == Set::<Seq<char>>::empty(),
            r@.connected == Set::<Seq<char>>::empty(),
            r@.latest_threat == "None"@,
            r@.latest_incident == "None"@,
            r@.incident_status == "None"@,
    {
        let r = Dashboard {
            packets: 0,
            advertising: 0,
            connection_sessions: 0,
            disconnections: 0,
            discovered_devices: TextMap::new(),
            connected_devices: TextMap::new(),
            rssi_updates: 0,
            authentication_failures: 0,
            pairing_requests: 0,
            threats: 0,
            latest_threat: string_of(chars_of("None").as_slice()),
            latest_incident: string_of(chars_of("None").as_slice()),
            incident_status: string_of(chars_of("None").as_slice()),
        };
        assert(r@.discovered =~= Set::<Seq<char>>::empty());
        assert(r@.connected =~= Set::<Seq<char>>::empty());
        r
    }

    /// Counts one parsed event.
    pub fn update(&mut self, event: &BluetoothEvent)
        requires
            old(self).wf(),
            old(self)@.packets < usize::MAX,
        ensures
            final(self).wf(),
            final(self)@ == after_event(old(self)@, *event),
    {
        self.packets += 1;
        match event.event_type {
            EventType::AdvertisingReport => {
                self.advertising += 1;
                match device_mac_of(event) {
                    Some(mac) => {
                        self.discovered_devices.insert(mac, ());
                    },
                    None => {},
                }
            },
            EventType::ConnectionComplete => {
                match device_mac_of(event) {
                    Some(mac) => {
                        self.discovered_devices.insert(mac.clone(), ());
                        let newly_connected = !self.connected_devices.contains(mac.as_slice());
                        self.connected_devices.insert(mac, ());
                        if newly_connected {
                            self.connection_sessions += 1;
                        }
                    },
                    None => {},
                }
            },
            EventType::DisconnectionComplete => {
                match device_mac_of(event) {
                    Some(mac) => {
                        let was_connected = self.connected_devices.remove(mac.as_slice()).is_some();
                        if was_connected {
                            self.disconnections += 1;
                        }
                    },
                    None => {},
                }
            },
            EventType::DeviceFound => {
                match device_mac_of(event) {
                    Some(mac) => {
                        self.discovered_devices.insert(mac, ());
                    },
                    None => {},
                }
            },
            EventType::RSSIUpdate => {
                self.rssi_updates += 1;
            },
            EventType::AuthenticationFailed => {
                self.authentication_failures += 1;
            },
            EventType::PairingRequest => {
                self.pairing_requests += 1;
            },
            _ => {},
        }
        proof {
            let d = old(self)@;
            let e = *event;
            let n = after_event(d, e);
            sessions_stay_balanced(d, e);
            assert(self@.discovered =~= n.discovered);
            assert(self@.connected =~= n.connected);
        }
    }

    /// Records a detected threat.
    pub fn threat(&mut self, name: &str)
        requires
            old(self).wf(),
            old(self)@.threats < usize::MAX,
        ensures
            final(self).wf(),
            final(self)@ == (DashboardView {
                threats: old(self)@.threats + 1,
                latest_threat: name@,
                ..old(self)@
            }),
    {
        self.threats += 1;
        self.latest_threat = string_of(chars_of(name).as_slice());
    }

    /// Records the latest SOC incident and its status.
    pub fn soc_incident(&mut self, id: &str, status: &str)
        requires
            old(self).wf(),
        ensures
            final(self).wf(),
            final(self)@ == (DashboardView {
                latest_incident: id@,
                incident_status: status@,
                ..old(self)@
            }),
    {
        self.latest_incident = string_of(chars_of(id).as_slice());
        self.incident_status = string_of(chars_of(status).as_slice());
    }

    /// The SOC section is shown once an incident was recorded.
    pub fn shows_soc_section(&self) -> (r: bool)
        ensures
            r == (self@.latest_incident != "None"@),
    {
        let a = chars_of(self.latest_incident.as_str());
        let b = chars_of("None");
        !chars_eq(a.as_slice(), b.as_slice())
    }

    /// The figures to show.
    pub fn figures(&self) -> (r: DashboardFigures)
        requires
            self.wf(),
        ensures
            r.packets == self@.packets,
            r.advertising == self@.advertising,
            r.connected_devices == self@.connected.len(),
            r.connection_sessions == self@.connection_sessions,
            r.disconnections == self@.disconnections,
            r.unique_devices == self@.discovered.len(),
            r.rssi_updates == self@.rssi_updates,
            r.authentication_failures == self@.authentication_failures,
            r.pairing_requests == self@.pairing_requests,
            r.threats == self@.threats,
            r.latest_threat@ == self@.latest_threat,
            r.latest_incident@ == self@.latest_incident,
            r.incident_status@ == self@.incident_status,
    {
        proof {
            self.connected_devices.lemma_keys();
            self.discovered_devices.lemma_keys();
        }
        DashboardFigures {
            packets: self.packets,
            advertising: self.advertising,
            connected_devices: self.connected_devices.len(),
            connection_sessions: self.connection_sessions,
            disconnections: self.disconnections,
            unique_devices: self.discovered_devices.len(),
            rssi_updates: self.rssi_updates,
            authentication_failures: self.authentication_failures,
            pairing_requests: self.pairing_requests,
            threats: self.threats,
            latest_threat: self.latest_threat.clone(),
            latest_incident: self.latest_incident.clone(),
            incident_status: self.incident_status.clone(),
        }
    }
}

/// Sessions count genuine transitions: every session either ended in a
/// counted disconnection or is a device still connected, and a connected
/// device is a known device.
pub open spec fn sessions_balanced(d: DashboardView) -> bool {
    &&& d.connected.finite()
    &&& d.connection_sessions == d.disconnections + d.connected.len()
    &&& d.connected.subset_of(d.discovered)
}

/// Duplicate connection or disconnection events for the same device are
/// counted once: the session balance holds after every event, the known
/// devices only grow, and every event counts as one packet.
pub proof fn sessions_stay_balanced(d: DashboardView, e: BluetoothEvent)
    requires
        sessions_balanced(d),
    ensures
        sessions_balanced(after_event(d, e)),
        d.discovered.subset_of(after_event(d, e).discovered),
        after_event(d, e).packets == d.packets + 1,
{
    let n = after_event(d, e);
    match device_mac(e) {
        Some(x) => {
            if e.event_type == EventType::ConnectionComplete && !d.connected.contains(x) {
                assert(n.connected.len() == d.connected.len() + 1);
            }
            if e.event_type == EventType::DisconnectionComplete && d.connected.contains(x) {
                assert(n.connected.len() == d.connected.len() - 1);
            }
        },
        None => {},
    }
}

/// The session balance is an invariant of the dashboard: a dashboard made
/// by `new` and changed by any sequence of `update`, `threat` and
/// `soc_incident` calls has as many sessions as disconnections plus
/// connected devices, and its connected devices are known devices.
pub proof fn sessions_always_balanced(d: &Dashboard)
    requires
        d.wf(),
    ensures
        sessions_balanced(d@),
{
}

/// What one event changes on the dashboard: it is one more packet;
/// advertising reports, RSSI updates, authentication failures and pairing
/// requests each raise their own counter by one and no other; a connection
/// of a device not yet connected opens one session and leaves the device
/// connected and known; a disconnection of a connected device counts one
/// disconnection and leaves it disconnected; an advertising report or a
/// found device makes its device known; threats and SOC fields stay.
pub proof fn event_effects(d: DashboardView, e: BluetoothEvent)
    ensures
        ({
            let a = after_event(d, e);
            let t = e.event_type;
            &&& a.packets == d.packets + 1
            &&& a.advertising == d.advertising + if t == EventType::AdvertisingReport { 1int } else { 0int }
            &&& a.rssi_updates == d.rssi_updates + if t == EventType::RSSIUpdate { 1int } else { 0int }
            &&& a.authentication_failures == d.authentication_failures + if t == EventType::AuthenticationFailed { 1int } else { 0int }
            &&& a.pairing_requests == d.pairing_requests + if t == EventType::PairingRequest { 1int } else { 0int }
            &&& a.connection_sessions == d.connection_sessions + if t == EventType::ConnectionComplete
                && device_mac(e) is Some && !d.connected.contains(device_mac(e)->0) { 1int } else { 0int }
            &&& a.disconnections == d.disconnections + if t == EventType::DisconnectionComplete
                && device_mac(e) is Some && d.connected.contains(device_mac(e)->0) { 1int } else { 0int }
            &&& (t == EventType::ConnectionComplete && device_mac(e) is Some) ==> a.connected.contains(device_mac(e)->0)
                && a.discovered.contains(device_mac(e)->0)
            &&& (t == EventType::DisconnectionComplete && device_mac(e) is Some) ==> !a.connected.contains(device_mac(e)->0)
            &&& ((t == EventType::AdvertisingReport || t == EventType::DeviceFound) && device_mac(e) is Some)
                ==> a.discovered.contains(device_mac(e)->0)
            &&& d.discovered.subset_of(a.discovered)
            &&& a.threats == d.threats
            &&& a.latest_threat == d.latest_threat
            &&& a.latest_incident == d.latest_incident
            &&& a.incident_status == d.incident_status
        }),
{
}

} // verus!
