//! The first, line-prefix based packet builder: HCI and MGMT events open a
//! packet, and only the address, signal strength and name are collected.

use vstd::prelude::*;

use crate::matching::{capture_group_one, regex_capture};
use crate::models::BluetoothPacket;
use crate::numtext::{parse_i16, parse_signed};
use crate::packet_builder::{as_i16, or_keep};
use crate::text::{
    chars_of, contains_str, has_sub, join_line_chars, join_lines, lines_view, replace_all,
    replace_chars, starts_with_str, string_of, trim, trim_chars, opt_chars, opt_text,
};

verus! {

/// A Bluetooth address in upper case.
pub const SIMPLE_MAC_PATTERN: &'static str = "([0-9A-F]{2}(:[0-9A-F]{2}){5})";

/// A signal strength reading.
pub const SIMPLE_RSSI_PATTERN: &'static str = "RSSI:\\s*(-?\\d+)";

/// The state of the builder.
pub struct SimpleState {
    pub mac: Option<Seq<char>>,
    pub name: Option<Seq<char>>,
    pub rssi: Option<i16>,
    pub lines: Seq<Seq<char>>,
}

/// A line that opens a new packet.
pub open spec fn opens_packet(line: Seq<char>) -> bool {
    "> HCI Event:"@.is_prefix_of(line) || "@ MGMT Event:"@.is_prefix_of(line)
}

/// The state after a line is added to the packet and read.
pub open spec fn scan_line(s: SimpleState, line: Seq<char>) -> SimpleState {
    SimpleState {
        mac: or_keep(regex_capture(SIMPLE_MAC_PATTERN@, line), s.mac),
        rssi: if has_sub(line, "RSSI:"@) {
            match regex_capture(SIMPLE_RSSI_PATTERN@, line) {
                Some(v) => as_i16(parse_signed(v, -32768, 32767)),
                None => s.rssi,
            }
        } else {
            s.rssi
        },
        name: if has_sub(line, "Name (complete):"@) {
            Some(trim(replace_all(line, "Name (complete):"@, Seq::empty())))
        } else {
            s.name
        },
        lines: s.lines.push(line),
    }
}

/// `p` is the packet made of the address, name, signal strength and lines
/// of `s`; the other telemetry is absent.
pub open spec fn is_simple_packet_of(p: BluetoothPacket, s: SimpleState) -> bool {
    &&& s.mac == Some(p.mac@)
    &&& opt_text(p.name) == s.name
    &&& p.rssi == s.rssi
    &&& p.connection_handle is None
    &&& p.role is None
    &&& p.encryption_enabled is None
    &&& p.key_size is None
    &&& p.l2cap_cid is None
    &&& p.service_uuid is None
    &&& p.hci_event_code is None
    &&& p.raw_data@ == join_lines(s.lines)
}

/// Collects btmon lines into packets.
pub struct PacketBuilder {
    current_mac: Option<Vec<char>>,
    current_name: Option<Vec<char>>,
    current_rssi: Option<i16>,
    current_data: Vec<Vec<char>>,
}

impl View for PacketBuilder {
    type V = SimpleState;

    closed spec fn view(&self) -> SimpleState {
        SimpleState {
            mac: opt_chars(self.current_mac),
            name: opt_chars(self.current_name),
            rssi: self.current_rssi,
            lines: lines_view(self.current_data@),
        }
    }
}

impl PacketBuilder {
    /// An empty builder.
    pub fn new() -> (r: Self)
        ensures
            r@ == (SimpleState { mac: None, name: None, rssi: None, lines: Seq::empty() }),
    {
        let r = PacketBuilder {
            current_mac: None,
            current_name: None,
            current_rssi: None,
            current_data: Vec::new(),
        };
        assert(lines_view(r.current_data@) =~= Seq::<Seq<char>>::empty());
        r
    }

    /// Receives one btmon line. A line opening a new packet completes the
    /// previous one when it has lines and an address; the completed packet
    /// is returned and the new one starts with this line, unread. Otherwise
    /// an opening line discards the lines so far, and the line is added and
    /// read for an address, a signal strength and a name.
    pub fn push_line(&mut self, line: &str) -> (r: Option<BluetoothPacket>)
        ensures
            ({
                let l = line@;
                let s = old(self)@;
                if opens_packet(l) && s.lines.len() > 0 && s.mac is Some {
                    &&& r matches Some(p) && is_simple_packet_of(p, s)
                    &&& final(self)@ == (SimpleState {
                        mac: None,
                        name: None,
                        rssi: None,
                        lines: seq![l],
                    })
                } else if opens_packet(l) {
                    &&& r is None
                    &&& final(self)@ == scan_line(SimpleState { lines: Seq::empty(), ..s }, l)
                } else {
                    &&& r is None
                    &&& final(self)@ == scan_line(s, l)
                }
            }),
    {
        let raw = chars_of(line);
        if starts_with_str(raw.as_slice(), "> HCI Event:") || starts_with_str(
            raw.as_slice(),
            "@ MGMT Event:",
        ) {
            if self.current_data.len() > 0 && self.current_mac.is_some() {
                let mac = match self.current_mac.take() {
                    Some(m) => string_of(m.as_slice()),
                    None => string_of(chars_of("").as_slice()),
                };
                let name = match self.current_name.take() {
                    Some(n) => Some(string_of(n.as_slice())),
                    None => None,
                };
                let rssi = self.current_rssi.take();
                let packet = BluetoothPacket {
                    mac,
                    name,
                    rssi,
                    connection_handle: None,
                    role: None,
                    encryption_enabled: None,
                    key_size: None,
                    l2cap_cid: None,
                    service_uuid: None,
                    hci_event_code: None,
                    raw_data: string_of(join_line_chars(&self.current_data).as_slice()),
                };
                self.current_data = Vec::new();
                self.current_data.push(raw);
                assert(lines_view(self.current_data@) =~= seq![line@]);
                return Some(packet);
            }
            self.current_data = Vec::new();
            assert(lines_view(self.current_data@) =~= Seq::<Seq<char>>::empty());
        }
        let ghost before = self.current_data@;
        self.current_data.push(raw.clone());
        assert(lines_view(self.current_data@) =~= lines_view(before).push(line@));
        match capture_group_one(SIMPLE_MAC_PATTERN, raw.as_slice()) {
            Some(m) => {
                self.current_mac = Some(m);
            },
            None => {},
        }
        if contains_str(raw.as_slice(), "RSSI:") {
            match capture_group_one(SIMPLE_RSSI_PATTERN, raw.as_slice()) {
                Some(v) => {
                    self.current_rssi = parse_i16(v.as_slice());
                },
                None => {},
            }
        }
        if contains_str(raw.as_slice(), "Name (complete):") {
            let key = chars_of("Name (complete):");
            proof {
                reveal_strlit("Name (complete):");
            }
            let empty: Vec<char> = Vec::new();
            let replaced = replace_chars(raw.as_slice(), key.as_slice(), empty.as_slice());
            self.current_name = Some(trim_chars(replaced.as_slice()));
        }
        None
    }
}

} // verus!
