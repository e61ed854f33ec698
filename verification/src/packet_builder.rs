//! Assembles btmon output lines into complete packets and extracts the
//! telemetry found in their lines.

use vstd::prelude::*;

use crate::matching::{capture_group_one, regex_capture};
use crate::models::BluetoothPacket;
use crate::numtext::{
    parse_hex_u16, parse_i16, parse_signed, parse_u16, parse_u8, parse_unsigned,
};
use crate::text::{
    chars_of, contains_str, copy_range, has_sub, join_line_chars, join_lines, lines_view,
    split_once, split_once_str, starts_with_str, string_of, to_lower, to_upper, trim, trim_chars,
    trim_start, lower_case, upper_case, opt_chars, opt_text,
};

verus! {

/// A Bluetooth address, in either case.
pub const MAC_PATTERN: &'static str = "(?i)([0-9A-F]{2}(?::[0-9A-F]{2}){5})";

/// A signal strength reading.
pub const RSSI_PATTERN: &'static str = "(?i)RSSI:\\s*(-?\\d+)";

/// A connection handle.
pub const HANDLE_PATTERN: &'static str = "(?i)Handle:\\s*(\\d+)";

/// An encryption key size.
pub const KEY_SIZE_PATTERN: &'static str = "(?i)Key\\s+Size:\\s*(\\d+)";

/// An L2CAP channel identifier, hexadecimal or decimal.
pub const CID_PATTERN: &'static str = "(?i)CID:\\s*(0x[0-9A-F]+|\\d+)";

/// An HCI event code in brackets.
pub const EVENT_CODE_PATTERN: &'static str = "\\((0x[0-9A-Fa-f]+)\\)";

/// The telemetry collected for the packet being assembled.
pub struct PacketFields {
    pub mac: Option<Seq<char>>,
    pub name: Option<Seq<char>>,
    pub rssi: Option<i16>,
    pub connection_handle: Option<u16>,
    pub role: Option<Seq<char>>,
    pub encryption_enabled: Option<bool>,
    pub key_size: Option<u8>,
    pub l2cap_cid: Option<u16>,
    pub service_uuid: Option<Seq<char>>,
    pub hci_event_code: Option<Seq<char>>,
}

/// The state of a builder: the telemetry so far and the lines of the
/// packet being assembled.
pub struct BuilderState {
    pub fields: PacketFields,
    pub lines: Seq<Seq<char>>,
}

/// No telemetry at all.
pub open spec fn no_fields() -> PacketFields {
    PacketFields {
        mac: None,
        name: None,
        rssi: None,
        connection_handle: None,
        role: None,
        encryption_enabled: None,
        key_size: None,
        l2cap_cid: None,
        service_uuid: None,
        hci_event_code: None,
    }
}

/// `new` when it is `Some`, else `old`.
pub open spec fn or_keep<T>(new: Option<T>, old: Option<T>) -> Option<T> {
    match new {
        Some(v) => Some(v),
        None => old,
    }
}

/// The trimmed text after the first `key` in `line`, when it is not empty.
pub open spec fn keyed_value(line: Seq<char>, key: Seq<char>) -> Option<Seq<char>> {
    match split_once(line, key) {
        Some(parts) => if trim(parts.1).len() > 0 {
            Some(trim(parts.1))
        } else {
            None
        },
        None => None,
    }
}

/// A parsed value as an `i16`.
pub open spec fn as_i16(v: Option<int>) -> Option<i16> {
    match v {
        Some(x) => Some(x as i16),
        None => None,
    }
}

/// A parsed value as a `u16`.
pub open spec fn as_u16(v: Option<int>) -> Option<u16> {
    match v {
        Some(x) => Some(x as u16),
        None => None,
    }
}

/// A parsed value as a `u8`.
pub open spec fn as_u8(v: Option<int>) -> Option<u8> {
    match v {
        Some(x) => Some(x as u8),
        None => None,
    }
}

/// The value of a captured channel identifier: hexadecimal after `0x`
/// (in either case), else decimal.
pub open spec fn cid_value(v: Seq<char>) -> Option<u16> {
    if "0x"@.is_prefix_of(lower_case(v)) {
        if v.len() >= 2 {
            as_u16(parse_unsigned(v.subrange(2, v.len() as int), 16, 65535))
        } else {
            None
        }
    } else {
        as_u16(parse_unsigned(v, 10, 65535))
    }
}

/// The encryption state a line reports, given the one known before.
pub open spec fn encryption_state(line: Seq<char>, old: Option<bool>) -> Option<bool> {
    let lower = lower_case(line);
    if has_sub(lower, "encryption:"@) {
        if has_sub(lower, "enabled"@) || has_sub(lower, "encryption: on"@) {
            Some(true)
        } else if has_sub(lower, "disabled"@) || has_sub(lower, "encryption: off"@) {
            Some(false)
        } else {
            old
        }
    } else {
        old
    }
}

/// The device name a line reports, given the one known before: the
/// `Name (complete):` form first, then the MGMT `Name:` form when no name
/// is known and the line starts with it.
pub open spec fn name_state(line: Seq<char>, old: Option<Seq<char>>) -> Option<Seq<char>> {
    let first = or_keep(keyed_value(line, "Name (complete):"@), old);
    if first is None && "Name:"@.is_prefix_of(trim_start(line)) {
        keyed_value(line, "Name:"@)
    } else {
        first
    }
}

/// The telemetry after reading one (trimmed) line.
pub open spec fn extract(f: PacketFields, line: Seq<char>) -> PacketFields {
    PacketFields {
        mac: match regex_capture(MAC_PATTERN@, line) {
            Some(v) => Some(upper_case(v)),
            None => f.mac,
        },
        rssi: match regex_capture(RSSI_PATTERN@, line) {
            Some(v) => as_i16(parse_signed(v, -32768, 32767)),
            None => f.rssi,
        },
        name: name_state(line, f.name),
        connection_handle: match regex_capture(HANDLE_PATTERN@, line) {
            Some(v) => as_u16(parse_unsigned(v, 10, 65535)),
            None => f.connection_handle,
        },
        role: or_keep(keyed_value(line, "Role:"@), f.role),
        encryption_enabled: encryption_state(line, f.encryption_enabled),
        key_size: match regex_capture(KEY_SIZE_PATTERN@, line) {
            Some(v) => as_u8(parse_unsigned(v, 10, 255)),
            None => f.key_size,
        },
        l2cap_cid: match regex_capture(CID_PATTERN@, line) {
            Some(v) => cid_value(v),
            None => f.l2cap_cid,
        },
        service_uuid: or_keep(keyed_value(line, "UUID:"@), f.service_uuid),
        hci_event_code: if "> HCI Event:"@.is_prefix_of(line) {
            or_keep(regex_capture(EVENT_CODE_PATTERN@, line), f.hci_event_code)
        } else {
            f.hci_event_code
        },
    }
}

/// A (trimmed) line that opens a new top-level btmon record.
pub open spec fn starts_packet(line: Seq<char>) -> bool {
    ||| "> HCI Event:"@.is_prefix_of(line)
    ||| "< HCI Command:"@.is_prefix_of(line)
    ||| "> ACL Data"@.is_prefix_of(line)
    ||| "< ACL Data"@.is_prefix_of(line)
    ||| "> SCO Data"@.is_prefix_of(line)
    ||| "< SCO Data"@.is_prefix_of(line)
    ||| "> ISO Data"@.is_prefix_of(line)
    ||| "< ISO Data"@.is_prefix_of(line)
    ||| "@ MGMT Event:"@.is_prefix_of(line)
    ||| has_sub(line, "@ MGMT Command:"@)
}

/// `p` is the packet assembled from `state`: the address (or `Unknown`),
/// the telemetry, and the lines joined with newlines.
pub open spec fn is_packet_of(p: BluetoothPacket, state: BuilderState) -> bool {
    &&& p.mac@ == match state.fields.mac {
        Some(m) => m,
        None => "Unknown"@,
    }
    &&& opt_text(p.name) == state.fields.name
    &&& p.rssi == state.fields.rssi
    &&& p.connection_handle == state.fields.connection_handle
    &&& opt_text(p.role) == state.fields.role
    &&& p.encryption_enabled == state.fields.encryption_enabled
    &&& p.key_size == state.fields.key_size
    &&& p.l2cap_cid == state.fields.l2cap_cid
    &&& opt_text(p.service_uuid) == state.fields.service_uuid
    &&& opt_text(p.hci_event_code) == state.fields.hci_event_code
    &&& p.raw_data@ == join_lines(state.lines)
}

/// Collects btmon lines into packets.
pub struct PacketBuilder {
    current_mac: Option<Vec<char>>,
    current_name: Option<Vec<char>>,
    current_rssi: Option<i16>,
    current_connection_handle: Option<u16>,
    current_role: Option<Vec<char>>,
    current_encryption_enabled: Option<bool>,
    current_key_size: Option<u8>,
    current_l2cap_cid: Option<u16>,
    current_service_uuid: Option<Vec<char>>,
    current_hci_event_code: Option<Vec<char>>,
    current_data: Vec<Vec<char>>,
}

impl View for PacketBuilder {
    type V = BuilderState;

    closed spec fn view(&self) -> BuilderState {
        BuilderState {
            fields: PacketFields {
                mac: opt_chars(self.current_mac),
                name: opt_chars(self.current_name),
                rssi: self.current_rssi,
                connection_handle: self.current_connection_handle,
                role: opt_chars(self.current_role),
                encryption_enabled: self.current_encryption_enabled,
                key_size: self.current_key_size,
                l2cap_cid: self.current_l2cap_cid,
                service_uuid: opt_chars(self.current_service_uuid),
                hci_event_code: opt_chars(self.current_hci_event_code),
            },
            lines: lines_view(self.current_data@),
        }
    }
}

fn opt_string(o: &Option<Vec<char>>) -> (r: Option<String>)
    ensures
        opt_text(r) == opt_chars(*o),
{
    match o {
        Some(v) => Some(string_of(v.as_slice())),
        None => None,
    }
}

/// The trimmed text after the first `key` in `line`, when it is not empty.
pub fn keyed_value_chars(line: &[char], key: &str) -> (r: Option<Vec<char>>)
    ensures
        opt_chars(r) == keyed_value(line@, key@),
{
    match split_once_str(line, key) {
        Some(parts) => {
            let v = trim_chars(parts.1.as_slice());
            if v.len() > 0 {
                Some(v)
            } else {
                None
            }
        },
        None => None,
    }
}

fn cid_value_chars(v: &[char]) -> (r: Option<u16>)
    ensures
        r == cid_value(v@),
{
    let lower = to_lower(v);
    if starts_with_str(lower.as_slice(), "0x") {
        if v.len() >= 2 {
            let digits = copy_range(v, 2, v.len());
            parse_hex_u16(digits.as_slice())
        } else {
            None
        }
    } else {
        parse_u16(v)
    }
}

fn encryption_state_chars(line: &[char], old: Option<bool>) -> (r: Option<bool>)
    ensures
        r == encryption_state(line@, old),
{
    let lower = to_lower(line);
    if contains_str(lower.as_slice(), "encryption:") {
        if contains_str(lower.as_slice(), "enabled") || contains_str(
            lower.as_slice(),
            "encryption: on",
        ) {
            Some(true)
        } else if contains_str(lower.as_slice(), "disabled") || contains_str(
            lower.as_slice(),
            "encryption: off",
        ) {
            Some(false)
        } else {
            old
        }
    } else {
        old
    }
}

impl PacketBuilder {
    /// A builder with no lines and no telemetry.
    pub fn new() -> (r: Self)
        ensures
            r@ == (BuilderState { fields: no_fields(), lines: Seq::empty() }),
    {
        let r = PacketBuilder {
            current_mac: None,
            current_name: None,
            current_rssi: None,
            current_connection_handle: None,
            current_role: None,
            current_encryption_enabled: None,
            current_key_size: None,
            current_l2cap_cid: None,
            current_service_uuid: None,
            current_hci_event_code: None,
            current_data: Vec::new(),
        };
        assert(lines_view(r.current_data@) =~= Seq::<Seq<char>>::empty());
        r
    }

    /// Receives one btmon line. A line that opens a new record while lines
    /// are collected completes the previous packet, which is returned; the
    /// new record then starts with this line. Telemetry is read from the
    /// trimmed line in either case.
    pub fn push_line(&mut self, line: &str) -> (r: Option<BluetoothPacket>)
        ensures
            final(self)@ == push_state(old(self)@, line@).0,
            match push_state(old(self)@, line@).1 {
                Some(_) => r matches Some(p) && is_packet_of(p, old(self)@),
                None => r is None,
            },
    {
        let raw = chars_of(line);
        let trimmed = trim_chars(raw.as_slice());
        let new_packet = Self::is_packet_start(trimmed.as_slice());
        if new_packet && self.current_data.len() > 0 {
            let previous_packet = self.build_current_packet();
            self.reset_packet_fields();
            self.current_data = Vec::new();
            self.current_data.push(raw);
            assert(lines_view(self.current_data@) =~= seq![line@]);
            self.extract_fields(trimmed.as_slice());
            return Some(previous_packet);
        }
        let ghost before = self.current_data@;
        self.current_data.push(raw);
        assert(lines_view(self.current_data@) =~= lines_view(before).push(line@));
        self.extract_fields(trimmed.as_slice());
        None
    }

    /// Whether a trimmed line opens a new top-level btmon record.
    fn is_packet_start(line: &[char]) -> (r: bool)
        ensures
            r == starts_packet(line@),
    {
        starts_with_str(line, "> HCI Event:") || starts_with_str(line, "< HCI Command:")
            || starts_with_str(line, "> ACL Data") || starts_with_str(line, "< ACL Data")
            || starts_with_str(line, "> SCO Data") || starts_with_str(line, "< SCO Data")
            || starts_with_str(line, "> ISO Data") || starts_with_str(line, "< ISO Data")
            || starts_with_str(line, "@ MGMT Event:") || contains_str(line, "@ MGMT Command:")
    }

    /// The packet assembled so far; the telemetry is taken out of the
    /// builder and the lines stay.
    fn build_current_packet(&mut self) -> (p: BluetoothPacket)
        ensures
            is_packet_of(p, old(self)@),
            final(self)@.fields == no_fields(),
            final(self).current_data == old(self).current_data,
    {
        let mac = match self.current_mac.take() {
            Some(m) => string_of(m.as_slice()),
            None => string_of(chars_of("Unknown").as_slice()),
        };
        let p = BluetoothPacket {
            mac,
            name: opt_string(&self.current_name),
            rssi: self.current_rssi,
            connection_handle: self.current_connection_handle,
            role: opt_string(&self.current_role),
            encryption_enabled: self.current_encryption_enabled,
            key_size: self.current_key_size,
            l2cap_cid: self.current_l2cap_cid,
            service_uuid: opt_string(&self.current_service_uuid),
            hci_event_code: opt_string(&self.current_hci_event_code),
            raw_data: string_of(join_line_chars(&self.current_data).as_slice()),
        };
        self.current_name = None;
        self.current_rssi = None;
        self.current_connection_handle = None;
        self.current_role = None;
        self.current_encryption_enabled = None;
        self.current_key_size = None;
        self.current_l2cap_cid = None;
        self.current_service_uuid = None;
        self.current_hci_event_code = None;
        p
    }

    /// Reads the telemetry of one trimmed line into the builder.
    fn extract_fields(&mut self, line: &[char])
        ensures
            final(self)@.fields == extract(old(self)@.fields, line@),
            final(self)@.lines == old(self)@.lines,
    {
        // MAC address
        match capture_group_one(MAC_PATTERN, line) {
            Some(v) => {
                self.current_mac = Some(to_upper(v.as_slice()));
            },
            None => {},
        }
        // RSSI
        match capture_group_one(RSSI_PATTERN, line) {
            Some(v) => {
                self.current_rssi = parse_i16(v.as_slice());
            },
            None => {},
        }
        // Device name
        match keyed_value_chars(line, "Name (complete):") {
            Some(v) => {
                self.current_name = Some(v);
            },
            None => {},
        }
        // MGMT-style name
        if self.current_name.is_none() {
            let lead = trim_start_chars(line);
            if starts_with_str(lead.as_slice(), "Name:") {
                self.current_name = keyed_value_chars(line, "Name:");
            }
        }
        // Connection handle
        match capture_group_one(HANDLE_PATTERN, line) {
            Some(v) => {
                self.current_connection_handle = parse_u16(v.as_slice());
            },
            None => {},
        }
        // Role
        match keyed_value_chars(line, "Role:") {
            Some(v) => {
                self.current_role = Some(v);
            },
            None => {},
        }
        // Encryption state
        self.current_encryption_enabled = encryption_state_chars(
            line,
            self.current_encryption_enabled,
        );
        // Encryption key size
        match capture_group_one(KEY_SIZE_PATTERN, line) {
            Some(v) => {
                self.current_key_size = parse_u8(v.as_slice());
            },
            None => {},
        }
        // L2CAP CID
        match capture_group_one(CID_PATTERN, line) {
            Some(v) => {
                self.current_l2cap_cid = cid_value_chars(v.as_slice());
            },
            None => {},
        }
        // Service UUID
        match keyed_value_chars(line, "UUID:") {
            Some(v) => {
                self.current_service_uuid = Some(v);
            },
            None => {},
        }
        // HCI event code
        if starts_with_str(line, "> HCI Event:") {
            match capture_group_one(EVENT_CODE_PATTERN, line) {
                Some(v) => {
                    self.current_hci_event_code = Some(v);
                },
                None => {},
            }
        }
    }

    /// Clears all telemetry; the lines stay.
    fn reset_packet_fields(&mut self)
        ensures
            final(self)@.fields == no_fields(),
            final(self).current_data == old(self).current_data,
    {
        self.current_mac = None;
        self.current_name = None;
        self.current_rssi = None;
        self.current_connection_handle = None;
        self.current_role = None;
        self.current_encryption_enabled = None;
        self.current_key_size = None;
        self.current_l2cap_cid = None;
        self.current_service_uuid = None;
        self.current_hci_event_code = None;
    }
}

/// `s` without leading white space.
fn trim_start_chars(s: &[char]) -> (r: Vec<char>)
    ensures
        r@ == trim_start(s@),
{
    let i = crate::text::skip_white_space(s, 0);
    assert(s@.subrange(0, s@.len() as int) =~= s@);
    copy_range(s, i, s.len())
}

/// The builder state after a line is pushed, and the lines of the packet
/// it completes, if any (as `PacketBuilder::push_line` states).
pub open spec fn push_state(s: BuilderState, line: Seq<char>) -> (BuilderState, Option<Seq<Seq<char>>>) {
    let t = trim(line);
    if starts_packet(t) && s.lines.len() > 0 {
        (BuilderState { fields: extract(no_fields(), t), lines: seq![line] }, Some(s.lines))
    } else {
        (BuilderState { fields: extract(s.fields, t), lines: s.lines.push(line) }, None)
    }
}

/// Pushing the lines in order: the final state and the lines of every
/// packet completed on the way, in order.
pub open spec fn push_all(s: BuilderState, lines: Seq<Seq<char>>) -> (BuilderState, Seq<Seq<Seq<char>>>)
    decreases lines.len(),
{
    if lines.len() == 0 {
        (s, Seq::empty())
    } else {
        let prev = push_all(s, lines.drop_last());
        let step = push_state(prev.0, lines.last());
        (step.0, match step.1 {
            Some(p) => prev.1.push(p),
            None => prev.1,
        })
    }
}

/// All the lines of a sequence of packets, in order.
pub open spec fn flatten_lines(ps: Seq<Seq<Seq<char>>>) -> Seq<Seq<char>>
    decreases ps.len(),
{
    if ps.len() == 0 {
        Seq::empty()
    } else {
        flatten_lines(ps.drop_last()) + ps.last()
    }
}

/// No line is lost or reordered: the lines of the completed packets,
/// followed by the lines still being collected, are the lines collected
/// before followed by the lines pushed. Every completed packet has lines.
pub proof fn lines_are_preserved(s: BuilderState, lines: Seq<Seq<char>>)
    ensures
        flatten_lines(push_all(s, lines).1) + push_all(s, lines).0.lines =~= s.lines + lines,
        forall|i: int| 0 <= i < push_all(s, lines).1.len() ==> #[trigger] push_all(s, lines).1[i].len() > 0,
    decreases lines.len(),
{
    if lines.len() > 0 {
        lines_are_preserved(s, lines.drop_last());
        let prev = push_all(s, lines.drop_last());
        let step = push_state(prev.0, lines.last());
        assert(lines.drop_last().push(lines.last()) =~= lines);
        match step.1 {
            Some(p) => {
                assert(push_all(s, lines).1.drop_last() =~= prev.1);
                assert(flatten_lines(push_all(s, lines).1) =~= flatten_lines(prev.1) + prev.0.lines);
                let ps = push_all(s, lines).1;
                assert forall|i: int| 0 <= i < ps.len() implies #[trigger] ps[i].len() > 0 by {
                    if i < prev.1.len() {
                        assert(ps[i] == prev.1[i]);
                    }
                }
                assert(step.0.lines =~= seq![lines.last()]);
                assert(flatten_lines(ps) + step.0.lines =~= (flatten_lines(prev.1) + prev.0.lines).push(lines.last()));
                assert((s.lines + lines.drop_last()).push(lines.last()) =~= s.lines + lines);
            },
            None => {
                assert(step.0.lines =~= prev.0.lines.push(lines.last()));
                assert(flatten_lines(prev.1) + step.0.lines =~= (flatten_lines(prev.1) + prev.0.lines).push(lines.last()));
                assert((s.lines + lines.drop_last()).push(lines.last()) =~= s.lines + lines);
            },
        }
    }
}

/// The number of lines that open a new record (once trimmed).
pub open spec fn packet_starts(lines: Seq<Seq<char>>) -> nat
    decreases lines.len(),
{
    if lines.len() == 0 {
        0
    } else {
        packet_starts(lines.drop_last()) + if starts_packet(trim(lines.last())) {
            1nat
        } else {
            0nat
        }
    }
}

/// Every line that opens a new record completes a packet, except the very
/// first line given to an empty builder: the completed packets number the
/// record-opening lines, less one when the builder was empty and the first
/// line opens a record. Afterwards the builder holds lines again.
pub proof fn one_packet_per_record_start(s: BuilderState, lines: Seq<Seq<char>>)
    ensures
        push_all(s, lines).1.len() + (if s.lines.len() == 0 && lines.len() > 0 && starts_packet(trim(lines[0])) {
            1nat
        } else {
            0nat
        }) == packet_starts(lines),
        lines.len() > 0 ==> push_all(s, lines).0.lines.len() > 0,
    decreases lines.len(),
{
    if lines.len() > 0 {
        one_packet_per_record_start(s, lines.drop_last());
        if lines.len() == 1 {
            assert(lines.drop_last() =~= Seq::<Seq<char>>::empty());
            assert(lines[0] == lines.last());
        } else {
            assert(lines.drop_last()[0] == lines[0]);
        }
    }
}

} // verus!
