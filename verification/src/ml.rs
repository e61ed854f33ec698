//! Behavioural feature windows per device for the machine-learning
//! dataset, and the rules that label dataset rows.

use vstd::prelude::*;

use crate::models::{BluetoothEvent, EventType};
use crate::numtext::{parse_u32, parse_unsigned};
use crate::text::{
    chars_eq, chars_of, string_of, to_upper, trim, trim_chars, upper_case,
};
use crate::textmap::TextMap;
use crate::time::{age_seconds, seconds_between, utc_now, Timestamp};

verus! {

/// The features of one device during one observation window.
#[derive(Debug, Clone, Copy)]
pub struct DeviceWindow {
    pub start_time: Timestamp,
    pub connections: usize,
    pub disconnections: usize,
    pub connection_failures: usize,
    pub authentication_failures: usize,
    pub pairing_requests: usize,
    pub advertising_reports: usize,
    /// RSSI update events.
    pub rssi_updates: usize,
    /// RSSI update events that carried a value.
    pub valid_rssi_samples: usize,
    pub rssi_sum: i128,
    pub rssi_min: Option<i16>,
    pub rssi_max: Option<i16>,
    /// Events of no explicit feature category.
    pub other_events: usize,
    pub total_events: usize,
}

/// A window started at `now` with nothing counted.
pub open spec fn fresh_window(now: Timestamp) -> DeviceWindow {
    DeviceWindow {
        start_time: now,
        connections: 0,
        disconnections: 0,
        connection_failures: 0,
        authentication_failures: 0,
        pairing_requests: 0,
        advertising_reports: 0,
        rssi_updates: 0,
        valid_rssi_samples: 0,
        rssi_sum: 0,
        rssi_min: None,
        rssi_max: None,
        other_events: 0,
        total_events: 0,
    }
}

/// The counters are consistent: every event falls in exactly one feature
/// category, each count is at most the total, valid samples
/// are RSSI updates, and the RSSI sum and extremes fit the samples, the
/// weakest reading being at most the strongest.
pub open spec fn window_ok(w: DeviceWindow) -> bool {
    &&& w.connections + w.disconnections + w.connection_failures + w.authentication_failures
        + w.pairing_requests + w.advertising_reports + w.rssi_updates + w.other_events == w.total_events
    &&& w.connections <= w.total_events
    &&& w.disconnections <= w.total_events
    &&& w.connection_failures <= w.total_events
    &&& w.authentication_failures <= w.total_events
    &&& w.pairing_requests <= w.total_events
    &&& w.advertising_reports <= w.total_events
    &&& w.rssi_updates <= w.total_events
    &&& w.other_events <= w.total_events
    &&& w.valid_rssi_samples <= w.rssi_updates
    &&& -32768 * w.valid_rssi_samples <= w.rssi_sum <= 32767 * w.valid_rssi_samples
    &&& (w.valid_rssi_samples > 0) == (w.rssi_min is Some)
    &&& (w.valid_rssi_samples > 0) == (w.rssi_max is Some)
    &&& (w.rssi_min matches Some(lo) ==> w.rssi_max matches Some(hi) && lo <= hi)
}

/// The smaller of a reading and the least one so far, if any.
pub open spec fn min_i16(a: Option<i16>, r: i16) -> i16 {
    match a {
        Some(x) => if x < r { x } else { r },
        None => r,
    }
}

/// The larger of a reading and the greatest one so far, if any.
pub open spec fn max_i16(a: Option<i16>, r: i16) -> i16 {
    match a {
        Some(x) => if x > r { x } else { r },
        None => r,
    }
}

/// The window after one more event of its device.
pub open spec fn window_after(w: DeviceWindow, e: BluetoothEvent) -> DeviceWindow {
    let w1 = DeviceWindow { total_events: (w.total_events + 1) as usize, ..w };
    match e.event_type {
        EventType::ConnectionComplete => DeviceWindow { connections: (w.connections + 1) as usize, ..w1 },
        EventType::DisconnectionComplete => DeviceWindow { disconnections: (w.disconnections + 1) as usize, ..w1 },
        EventType::ConnectionFailed => DeviceWindow { connection_failures: (w.connection_failures + 1) as usize, ..w1 },
        EventType::AuthenticationFailed => DeviceWindow { authentication_failures: (w.authentication_failures + 1) as usize, ..w1 },
        EventType::PairingRequest => DeviceWindow { pairing_requests: (w.pairing_requests + 1) as usize, ..w1 },
        EventType::AdvertisingReport => DeviceWindow { advertising_reports: (w.advertising_reports + 1) as usize, ..w1 },
        EventType::RSSIUpdate => match e.rssi {
            Some(r) => DeviceWindow {
                rssi_updates: (w.rssi_updates + 1) as usize,
                valid_rssi_samples: (w.valid_rssi_samples + 1) as usize,
                rssi_sum: (w.rssi_sum + r) as i128,
                rssi_min: Some(min_i16(w.rssi_min, r)),
                rssi_max: Some(max_i16(w.rssi_max, r)),
                ..w1
            },
            None => DeviceWindow { rssi_updates: (w.rssi_updates + 1) as usize, ..w1 },
        },
        _ => DeviceWindow { other_events: (w.other_events + 1) as usize, ..w1 },
    }
}

impl DeviceWindow {
    /// A window started at `now`.
    pub fn new(now: Timestamp) -> (r: Self)
        ensures
            r == fresh_window(now),
    {
        DeviceWindow {
            start_time: now,
            connections: 0,
            disconnections: 0,
            connection_failures: 0,
            authentication_failures: 0,
            pairing_requests: 0,
            advertising_reports: 0,
            rssi_updates: 0,
            valid_rssi_samples: 0,
            rssi_sum: 0,
            rssi_min: None,
            rssi_max: None,
            other_events: 0,
            total_events: 0,
        }
    }

    /// The difference between the strongest and the weakest RSSI of the
    /// window, zero without samples.
    pub fn rssi_range(&self) -> (r: i32)
        ensures
            r == match (self.rssi_min, self.rssi_max) {
                (Some(a), Some(b)) => b - a,
                _ => 0,
            },
    {
        match (self.rssi_min, self.rssi_max) {
            (Some(a), Some(b)) => b as i32 - a as i32,
            _ => 0,
        }
    }

    /// Counts one more event of the window's device.
    fn count(&mut self, e: &BluetoothEvent)
        requires
            window_ok(*old(self)),
            old(self).total_events < usize::MAX,
        ensures
            *final(self) == window_after(*old(self), *e),
            window_ok(*final(self)),
    {
        self.total_events += 1;
        match e.event_type {
            EventType::ConnectionComplete => {
                self.connections += 1;
            },
            EventType::DisconnectionComplete => {
                self.disconnections += 1;
            },
            EventType::ConnectionFailed => {
                self.connection_failures += 1;
            },
            EventType::AuthenticationFailed => {
                self.authentication_failures += 1;
            },
            EventType::PairingRequest => {
                self.pairing_requests += 1;
            },
            EventType::AdvertisingReport => {
                self.advertising_reports += 1;
            },
            EventType::RSSIUpdate => {
                self.rssi_updates += 1;
                match e.rssi {
                    Some(r) => {
                        self.valid_rssi_samples += 1;
                        self.rssi_sum = self.rssi_sum + r as i128;
                        self.rssi_min = Some(
                            match self.rssi_min {
                                Some(x) => if x < r {
                                    x
                                } else {
                                    r
                                },
                                None => r,
                            },
                        );
                        self.rssi_max = Some(
                            match self.rssi_max {
                                Some(x) => if x > r {
                                    x
                                } else {
                                    r
                                },
                                None => r,
                            },
                        );
                    },
                    None => {},
                }
            },
            _ => {
                self.other_events += 1;
            },
        }
    }
}

/// `c` is an ASCII hexadecimal digit (std `char::is_ascii_hexdigit`).
pub open spec fn is_hex_digit(c: char) -> bool {
    ('0' <= c && c <= '9') || ('a' <= c && c <= 'f') || ('A' <= c && c <= 'F')
}

/// Six colon-separated pairs of hexadecimal digits.
pub open spec fn is_mac_text(s: Seq<char>) -> bool {
    &&& s.len() == 17
    &&& forall|i: int| 0 <= i < 17 ==> if i % 3 == 2 {
        s[i] == ':'
    } else {
        is_hex_digit(#[trigger] s[i])
    }
}

/// An address the dataset accepts: trimmed and in upper case, it is a
/// well-formed address and not the `UNKNOWN` or all-zero placeholder.
pub open spec fn is_valid_ml_mac(m: Seq<char>) -> bool {
    let n = upper_case(trim(m));
    &&& n.len() > 0
    &&& n != "UNKNOWN"@
    &&& n != "00:00:00:00:00:00"@
    &&& is_mac_text(n)
}

/// The address under which an event is collected, if it has a valid one.
pub open spec fn ml_mac(e: BluetoothEvent) -> Option<Seq<char>> {
    match e.mac {
        Some(m) => if is_valid_ml_mac(m@) {
            Some(upper_case(trim(m@)))
        } else {
            None
        },
        None => None,
    }
}

fn is_mac_chars(s: &[char]) -> (r: bool)
    ensures
        r == is_mac_text(s@),
{
    if s.len() != 17 {
        return false;
    }
    let mut i: usize = 0;
    while i < 17
        invariant
            s@.len() == 17,
            i <= 17,
            forall|k: int| 0 <= k < i ==> if k % 3 == 2 {
                s@[k] == ':'
            } else {
                is_hex_digit(#[trigger] s@[k])
            },
        decreases 17 - i,
    {
        let c = s[i];
        let ok = if i % 3 == 2 {
            c == ':'
        } else {
            ('0' <= c && c <= '9') || ('a' <= c && c <= 'f') || ('A' <= c && c <= 'F')
        };
        if !ok {
            return false;
        }
        i += 1;
    }
    true
}

/// A completed window to be written to the dataset.
#[derive(Debug)]
pub struct FlushedWindow {
    pub mac: String,
    pub window: DeviceWindow,
}

/// Collects per-device feature windows of 30 seconds.
pub struct MLDataCollector {
    file_path: String,
    windows: TextMap<DeviceWindow>,
    window_seconds: i64,
}

impl View for MLDataCollector {
    type V = Map<Seq<char>, DeviceWindow>;

    /// The open window of each device.
    closed spec fn view(&self) -> Map<Seq<char>, DeviceWindow> {
        self.windows@
    }
}

/// The flushed windows are exactly the windows of `m` that satisfy `pick`
/// and hold events, each once.
pub open spec fn flushed_exactly(r: Seq<FlushedWindow>, m: Map<Seq<char>, DeviceWindow>, pick: spec_fn(Seq<char>) -> bool) -> bool {
    &&& forall|i: int| 0 <= i < r.len() ==> {
        &&& m.contains_key(#[trigger] r[i].mac@)
        &&& pick(r[i].mac@)
        &&& r[i].window == m[r[i].mac@]
        &&& r[i].window.total_events > 0
    }
    &&& forall|k: Seq<char>| m.contains_key(k) && pick(k) && m[k].total_events > 0 ==> exists|i: int| 0 <= i < r.len() && #[trigger] r[i].mac@ == k
    &&& forall|i: int, j: int| 0 <= i < r.len() && 0 <= j < r.len() && i != j ==> r[i].mac@ != r[j].mac@
}

/// With `by_age`, the window of `k` is 30 seconds old or older at `now`;
/// without, every window.
pub open spec fn completes(m: Map<Seq<char>, DeviceWindow>, now: Timestamp, by_age: bool, k: Seq<char>) -> bool {
    !by_age || age_seconds(now, m[k].start_time) >= 30
}

/// Recording `e` at `now` took the windows from `before` to `after` and
/// returned `r`: an event without a valid address changes nothing;
/// otherwise the event is counted into its device's window, which is
/// started afresh at `now` when there was none or it was 30 seconds old or
/// older, and the old window is returned when it held events.
pub open spec fn recorded(
    before: Map<Seq<char>, DeviceWindow>,
    after: Map<Seq<char>, DeviceWindow>,
    e: BluetoothEvent,
    now: Timestamp,
    r: Option<FlushedWindow>,
) -> bool {
    match ml_mac(e) {
        None => r is None && after == before,
        Some(m) => {
            let expired = before.contains_key(m) && age_seconds(now, before[m].start_time) >= 30;
            let base = if before.contains_key(m) && !expired {
                before[m]
            } else {
                fresh_window(now)
            };
            &&& after == before.insert(m, window_after(base, e))
            &&& if expired && before[m].total_events > 0 {
                r matches Some(f) && f.mac@ == m && f.window == before[m]
            } else {
                r is None
            }
        },
    }
}

/// Flushing at `now` kept the windows younger than 30 seconds and returned
/// the older ones that held events.
pub open spec fn expired_flushed(
    before: Map<Seq<char>, DeviceWindow>,
    after: Map<Seq<char>, DeviceWindow>,
    now: Timestamp,
    r: Seq<FlushedWindow>,
) -> bool {
    &&& after == Map::new(
        |k: Seq<char>| before.contains_key(k) && age_seconds(now, before[k].start_time) < 30,
        |k: Seq<char>| before[k],
    )
    &&& flushed_exactly(r, before, |k: Seq<char>| age_seconds(now, before[k].start_time) >= 30)
}

impl MLDataCollector {
    /// The windows are held consistently, last 30 seconds, and each keeps its counts consistent.
    pub closed spec fn wf(&self) -> bool {
        &&& self.windows.wf()
        &&& self.window_seconds == 30
        &&& forall|k: Seq<char>| #[trigger] self.windows@.contains_key(k) ==> window_ok(self.windows@[k])
    }

    /// The window of the event's device can count one more event.
    pub open spec fn has_room_for(&self, e: BluetoothEvent) -> bool {
        ml_mac(e) matches Some(m) ==> (self@.contains_key(m) ==> self@[m].total_events < usize::MAX)
    }

    /// The dataset file the windows belong to.
    pub closed spec fn path(&self) -> Seq<char> {
        self.file_path@
    }

    /// A collector with no open window, for the dataset file `file_path`.
    pub fn new(file_path: &str) -> (r: Self)
        ensures
            r.wf(),
            r@ == Map::<Seq<char>, DeviceWindow>::empty(),
            r.path() == file_path@,
    {
        MLDataCollector {
            file_path: string_of(chars_of(file_path).as_slice()),
            windows: TextMap::new(),
            window_seconds: 30,
        }
    }

    /// The dataset file.
    pub fn file_path(&self) -> (r: String)
        ensures
            r@ == self.path(),
    {
        self.file_path.clone()
    }

    /// Whether an address is one the dataset accepts.
    pub fn valid_mac(mac: &str) -> (r: bool)
        ensures
            r == is_valid_ml_mac(mac@),
    {
        let t = trim_chars(chars_of(mac).as_slice());
        let n = to_upper(t.as_slice());
        if n.len() == 0 {
            return false;
        }
        if chars_eq(n.as_slice(), chars_of("UNKNOWN").as_slice()) || chars_eq(
            n.as_slice(),
            chars_of("00:00:00:00:00:00").as_slice(),
        ) {
            return false;
        }
        is_mac_chars(n.as_slice())
    }

    /// Whether `record_event` can count `event` (its device's window is
    /// below the largest count).
    pub fn can_record(&self, event: &BluetoothEvent) -> (r: bool)
        requires
            self.wf(),
        ensures
            r == self.has_room_for(*event),
    {
        match &event.mac {
            Some(mac) => {
                if !Self::valid_mac(mac.as_str()) {
                    return true;
                }
                let n = to_upper(trim_chars(chars_of(mac.as_str()).as_slice()).as_slice());
                match self.windows.get(n.as_slice()) {
                    Some(w) => w.total_events < usize::MAX,
                    None => true,
                }
            },
            None => true,
        }
    }

    /// Counts an event into its device's window at `now`. A window that is
    /// 30 seconds old or older is completed first and returned, and a new
    /// window starts; events without a valid address are ignored.
    pub fn record_event_at(&mut self, event: &BluetoothEvent, now: Timestamp) -> (r: Option<FlushedWindow>)
        requires
            old(self).wf(),
            old(self).has_room_for(*event),
        ensures
            final(self).wf(),
            final(self).path() == old(self).path(),
            recorded(old(self)@, final(self)@, *event, now, r),
    {
        let mac = match &event.mac {
            Some(m) => m,
            None => {
                return None;
            },
        };
        if !Self::valid_mac(mac.as_str()) {
            return None;
        }
        let normalized = to_upper(trim_chars(chars_of(mac.as_str()).as_slice()).as_slice());
        let should_flush = match self.windows.get(normalized.as_slice()) {
            Some(w) => seconds_between(now, w.start_time) >= self.window_seconds as i128,
            None => false,
        };
        let mut flushed: Option<FlushedWindow> = None;
        if should_flush {
            match self.windows.remove(normalized.as_slice()) {
                Some(w) => {
                    if w.total_events > 0 {
                        flushed = Some(FlushedWindow { mac: string_of(normalized.as_slice()), window: w });
                    }
                },
                None => {},
            }
        }
        let mut window = match self.windows.get(normalized.as_slice()) {
            Some(w) => *w,
            None => DeviceWindow::new(now),
        };
        window.count(event);
        self.windows.insert(normalized, window);
        proof {
            let m = ml_mac(*event)->0;
            if should_flush {
                assert(old(self)@.remove(m).insert(m, window) =~= old(self)@.insert(m, window));
            }
        }
        flushed
    }

    /// Counts an event into its device's window at the current time (see
    /// `record_event_at`).
    pub fn record_event(&mut self, event: &BluetoothEvent) -> (r: Option<FlushedWindow>)
        requires
            old(self).wf(),
            old(self).has_room_for(*event),
        ensures
            final(self).wf(),
            final(self).path() == old(self).path(),
            exists|now: Timestamp| recorded(old(self)@, final(self)@, *event, now, r),
    {
        let now = utc_now();
        self.record_event_at(event, now)
    }

    /// Completes every window that is 30 seconds old or older at `now`: they
    /// are removed, and those holding events are returned.
    pub fn flush_expired_at(&mut self, now: Timestamp) -> (r: Vec<FlushedWindow>)
        requires
            old(self).wf(),
        ensures
            final(self).wf(),
            final(self).path() == old(self).path(),
            expired_flushed(old(self)@, final(self)@, now, r@),
    {
        let ghost before = self@;
        let (kept, r) = self.split_windows(now, true);
        self.windows = kept;
        assert(self@ =~= Map::new(
            |k: Seq<char>| before.contains_key(k) && age_seconds(now, before[k].start_time) < 30,
            |k: Seq<char>| before[k],
        ));
        r
    }

    /// Completes every window that is 30 seconds old or older now.
    pub fn flush_expired(&mut self) -> (r: Vec<FlushedWindow>)
        requires
            old(self).wf(),
        ensures
            final(self).wf(),
            final(self).path() == old(self).path(),
            exists|now: Timestamp| expired_flushed(old(self)@, final(self)@, now, r@),
    {
        let now = utc_now();
        self.flush_expired_at(now)
    }

    /// Completes every window: all are removed, and those holding events
    /// are returned.
    pub fn flush_all(&mut self) -> (r: Vec<FlushedWindow>)
        requires
            old(self).wf(),
        ensures
            final(self).wf(),
            final(self).path() == old(self).path(),
            final(self)@ == Map::<Seq<char>, DeviceWindow>::empty(),
            flushed_exactly(r@, old(self)@, |k: Seq<char>| true),
    {
        let now = Timestamp { secs: 0, nanos: 0 };
        let (kept, r) = self.split_windows(now, false);
        self.windows = kept;
        assert(self.windows@ =~= Map::<Seq<char>, DeviceWindow>::empty());
        r
    }

    /// Splits the windows: with `by_age`, those 30 seconds old or older at
    /// `now` are completed and the others kept; without, all are completed.
    fn split_windows(&self, now: Timestamp, by_age: bool) -> (r: (TextMap<DeviceWindow>, Vec<FlushedWindow>))
        requires
            self.wf(),
        ensures
            r.0.wf(),
            forall|k: Seq<char>| #[trigger] r.0@.contains_key(k) ==> window_ok(r.0@[k]),
            r.0@ == Map::new(
                |k: Seq<char>| self@.contains_key(k) && by_age && age_seconds(now, self@[k].start_time) < 30,
                |k: Seq<char>| self@[k],
            ),
            flushed_exactly(r.1@, self@, |k: Seq<char>| completes(self@, now, by_age, k)),
    {
        let ghost keys = self.windows.keys();
        proof {
            self.windows.lemma_keys();
        }
        let mut kept: TextMap<DeviceWindow> = TextMap::new();
        let mut out: Vec<FlushedWindow> = Vec::new();
        let n = self.windows.len();
        let mut i: usize = 0;
        while i < n
            invariant
                self.wf(),
                keys == self.windows.keys(),
                keys.no_duplicates(),
                forall|k: Seq<char>| #[trigger] self@.contains_key(k) <==> keys.contains(k),
                n == keys.len(),
                i <= n,
                kept.wf(),
                forall|k: Seq<char>| #[trigger] kept@.contains_key(k) ==> window_ok(kept@[k]),
                kept@ == Map::new(
                    |k: Seq<char>| keys.subrange(0, i as int).contains(k) && !completes(self@, now, by_age, k),
                    |k: Seq<char>| self@[k],
                ),
                forall|j: int| 0 <= j < out@.len() ==> {
                    &&& keys.subrange(0, i as int).contains(#[trigger] out@[j].mac@)
                    &&& completes(self@, now, by_age, out@[j].mac@)
                    &&& out@[j].window == self@[out@[j].mac@]
                    &&& out@[j].window.total_events > 0
                },
                forall|k: Seq<char>| keys.subrange(0, i as int).contains(k) && completes(self@, now, by_age, k) && self@[k].total_events > 0 ==> exists|j: int| 0 <= j < out@.len() && #[trigger] out@[j].mac@ == k,
                forall|a: int, b: int| 0 <= a < out@.len() && 0 <= b < out@.len() && a != b ==> out@[a].mac@ != out@[b].mac@,
            decreases n - i,
        {
            let ghost s0 = keys.subrange(0, i as int);
            let ghost s1 = keys.subrange(0, i + 1);
            let ghost ki = keys[i as int];
            assert(s1 =~= s0.push(ki));
            assert(!s0.contains(ki)) by {
                if s0.contains(ki) {
                    let j = choose|j: int| 0 <= j < s0.len() && s0[j] == ki;
                    assert(keys[j] == keys[i as int]);
                }
            }
            assert forall|k: Seq<char>| #[trigger] s1.contains(k) <==> (s0.contains(k) || k == ki) by {
                if s1.contains(k) {
                    let j = choose|j: int| 0 <= j < s1.len() && s1[j] == k;
                    if j < s0.len() {
                        assert(s0[j] == k);
                    }
                }
                if s0.contains(k) {
                    let j = choose|j: int| 0 <= j < s0.len() && s0[j] == k;
                    assert(s1[j] == k);
                }
                if k == ki {
                    assert(s1[s0.len() as int] == k);
                }
            }
            assert(self@.contains_key(ki)) by {
                assert(keys.contains(ki));
            }
            let k = self.windows.key_at(i);
            let w = *self.windows.value_at(i);
            let expired = !by_age || seconds_between(now, w.start_time) >= self.window_seconds as i128;
            assert(w == self@[ki]);
            assert(self.window_seconds == 30);
            assert(expired == completes(self@, now, by_age, ki));
            if expired {
                if w.total_events > 0 {
                    let ghost before = out@;
                    out.push(FlushedWindow { mac: string_of(k.as_slice()), window: w });
                    proof {
                        assert forall|a: int, b: int| 0 <= a < out@.len() && 0 <= b < out@.len() && a != b implies out@[a].mac@ != out@[b].mac@ by {
                            if a < before.len() && b < before.len() {
                                assert(out@[a] == before[a] && out@[b] == before[b]);
                            } else if a < before.len() {
                                assert(out@[a] == before[a]);
                                assert(s0.contains(before[a].mac@));
                            } else {
                                assert(out@[b] == before[b]);
                                assert(s0.contains(before[b].mac@));
                            }
                        }
                        assert forall|q: Seq<char>| s1.contains(q) && completes(self@, now, by_age, q) && self@[q].total_events > 0 implies exists|j: int| 0 <= j < out@.len() && #[trigger] out@[j].mac@ == q by {
                            if q == ki {
                                assert(out@[before.len() as int].mac@ == q);
                            } else {
                                let j = choose|j: int| 0 <= j < before.len() && #[trigger] before[j].mac@ == q;
                                assert(out@[j] == before[j]);
                            }
                        }
                        assert forall|j: int| 0 <= j < out@.len() implies {
                            &&& s1.contains(#[trigger] out@[j].mac@)
                            &&& completes(self@, now, by_age, out@[j].mac@)
                            &&& out@[j].window == self@[out@[j].mac@]
                            &&& out@[j].window.total_events > 0
                        } by {
                            if j < before.len() {
                                assert(out@[j] == before[j]);
                            }
                        }
                    }
                }
                assert(kept@ =~= Map::new(
                    |q: Seq<char>| s1.contains(q) && !completes(self@, now, by_age, q),
                    |q: Seq<char>| self@[q],
                ));
            } else {
                proof {
                    assert(!kept@.contains_key(ki));
                }
                kept.insert(k.clone(), w);
                assert(kept@ =~= Map::new(
                    |q: Seq<char>| s1.contains(q) && !completes(self@, now, by_age, q),
                    |q: Seq<char>| self@[q],
                ));
            }
            i += 1;
        }
        proof {
            assert(keys.subrange(0, n as int) =~= keys);
            assert(kept@ =~= Map::new(
                |k: Seq<char>| self@.contains_key(k) && by_age && age_seconds(now, self@[k].start_time) < 30,
                |k: Seq<char>| self@[k],
            ));
        }
        (kept, out)
    }
}

// ------------------------------------------------------------------
// Dataset labelling
// ------------------------------------------------------------------

/// The value of a numeric dataset field, zero when it does not parse as a
/// `u32`.
pub open spec fn field_value(f: Seq<char>) -> int {
    match parse_unsigned(f, 10, 4294967295) {
        Some(v) => v,
        None => 0,
    }
}

/// A dataset row is labelled an attack when it has 10 or more advertising
/// reports, or 5 or more connections together with 5 or more
/// disconnections.
pub open spec fn is_attack_row(fields: Seq<Seq<char>>) -> bool {
    field_value(fields[7]) >= 10 || (field_value(fields[2]) >= 5 && field_value(fields[3]) >= 5)
}

fn field_value_of(f: &String) -> (r: u32)
    ensures
        r == field_value(f@),
{
    match parse_u32(chars_of(f.as_str()).as_slice()) {
        Some(v) => v,
        None => 0,
    }
}

/// Labels rows of the behavioural dataset.
pub struct DatasetLabeler;

impl DatasetLabeler {
    /// The row with its last field replaced by its label, `ATTACK` or
    /// `NORMAL`, and whether it is an attack.
    pub fn relabel_row(fields: &Vec<String>) -> (r: (Vec<String>, bool))
        requires
            fields@.len() >= 8,
        ensures
            r.1 == is_attack_row(fields@.map_values(|s: String| s@)),
            r.0@.len() == fields@.len(),
            forall|i: int| 0 <= i < fields@.len() - 1 ==> #[trigger] r.0@[i] == fields@[i],
            r.0@[fields@.len() - 1]@ == if r.1 {
                "ATTACK"@
            } else {
                "NORMAL"@
            },
    {
        let connections = field_value_of(&fields[2]);
        let disconnections = field_value_of(&fields[3]);
        let advertising_reports = field_value_of(&fields[7]);
        let attack = advertising_reports >= 10 || (connections >= 5 && disconnections >= 5);
        let mut row: Vec<String> = Vec::new();
        let mut i: usize = 0;
        while i < fields.len() - 1
            invariant
                fields@.len() >= 8,
                i <= fields@.len() - 1,
                row@.len() == i,
                forall|j: int| 0 <= j < i ==> #[trigger] row@[j] == fields@[j],
            decreases fields.len() - i,
        {
            row.push(fields[i].clone());
            i += 1;
        }
        let label = if attack {
            "ATTACK"
        } else {
            "NORMAL"
        };
        row.push(string_of(chars_of(label).as_slice()));
        (row, attack)
    }
}

/// Loads the labelled dataset.
pub struct DatasetLoader;

impl DatasetLoader {
    /// The class of a labelled row: 1 when its label field (the 16th) is
    /// `ATTACK` once trimmed, else 0.
    pub fn label_code(fields: &Vec<String>) -> (r: u32)
        ensures
            r == if fields@.len() > 15 && trim(fields@[15]@) == "ATTACK"@ {
                1u32
            } else {
                0u32
            },
    {
        if fields.len() > 15 {
            let t = trim_chars(chars_of(fields[15].as_str()).as_slice());
            if chars_eq(t.as_slice(), chars_of("ATTACK").as_slice()) {
                return 1;
            }
        }
        0
    }
}

/// Trains the decision tree on the labelled dataset.
pub struct ModelTrainer;

/// How many of the first `n` predictions equal their labels.
pub open spec fn matches_in(predictions: Seq<u32>, labels: Seq<u32>, n: int) -> nat
    decreases n,
{
    if n <= 0 {
        0
    } else {
        matches_in(predictions, labels, n - 1) + if predictions[n - 1] == labels[n - 1] {
            1nat
        } else {
            0nat
        }
    }
}

impl ModelTrainer {
    /// The number of samples whose prediction equals its label.
    pub fn correct_predictions(predictions: &[u32], labels: &[u32]) -> (r: usize)
        requires
            predictions@.len() >= labels@.len(),
        ensures
            r == matches_in(predictions@, labels@, labels@.len() as int),
    {
        let mut correct: usize = 0;
        let mut i: usize = 0;
        while i < labels.len()
            invariant
                predictions@.len() >= labels@.len(),
                i <= labels@.len(),
                correct == matches_in(predictions@, labels@, i as int),
                correct <= i,
            decreases labels.len() - i,
        {
            if predictions[i] == labels[i] {
                correct += 1;
            }
            i += 1;
        }
        correct
    }
}

/// Every event of a window falls in exactly one feature category, so the
/// total is explained by the features; the RSSI average and extremes only
/// take samples that carried a value.
pub proof fn features_explain_total(w: DeviceWindow, e: BluetoothEvent)
    requires
        window_ok(w),
        w.total_events < usize::MAX,
    ensures
        window_ok(window_after(w, e)),
        window_after(w, e).total_events == w.total_events + 1,
        window_after(w, e).valid_rssi_samples > 0 <==> window_after(w, e).rssi_min is Some,
{
}

/// Every open window of a collector keeps its counts explained: its
/// total is the sum of its feature categories, and its RSSI extremes are
/// present exactly when a sample was taken, the weakest at most the
/// strongest. The collector keeps this over any sequence of recordings and
/// flushes.
pub proof fn windows_stay_explained(c: &MLDataCollector, k: Seq<char>)
    requires
        c.wf(),
        c@.contains_key(k),
    ensures
        window_ok(c@[k]),
{
}

/// One if `b`, else zero.
pub open spec fn one_if(b: bool) -> int {
    if b {
        1
    } else {
        0
    }
}

/// Each event is counted once, under the feature of its type: a connection,
/// a disconnection, a failed connection, a failed authentication, a pairing
/// request, an advertising report or an RSSI update raises its own counter
/// by one and no other, and any other event raises only the count of other
/// events; the total always grows by one. An RSSI update with a reading
/// adds one sample and the reading to the sum; the window's start stays.
pub proof fn each_event_counts_under_its_type(w: DeviceWindow, e: BluetoothEvent)
    requires
        window_ok(w),
        w.total_events < usize::MAX,
    ensures
        ({
            let a = window_after(w, e);
            let t = e.event_type;
            let known = t == EventType::ConnectionComplete || t == EventType::DisconnectionComplete || t
                == EventType::ConnectionFailed || t == EventType::AuthenticationFailed || t
                == EventType::PairingRequest || t == EventType::AdvertisingReport || t == EventType::RSSIUpdate;
            &&& a.total_events == w.total_events + 1
            &&& a.connections == w.connections + one_if(t == EventType::ConnectionComplete)
            &&& a.disconnections == w.disconnections + one_if(t == EventType::DisconnectionComplete)
            &&& a.connection_failures == w.connection_failures + one_if(t == EventType::ConnectionFailed)
            &&& a.authentication_failures == w.authentication_failures + one_if(t == EventType::AuthenticationFailed)
            &&& a.pairing_requests == w.pairing_requests + one_if(t == EventType::PairingRequest)
            &&& a.advertising_reports == w.advertising_reports + one_if(t == EventType::AdvertisingReport)
            &&& a.rssi_updates == w.rssi_updates + one_if(t == EventType::RSSIUpdate)
            &&& a.other_events == w.other_events + one_if(!known)
            &&& a.valid_rssi_samples == w.valid_rssi_samples + one_if(t == EventType::RSSIUpdate && e.rssi is Some)
            &&& a.rssi_sum == w.rssi_sum + if t == EventType::RSSIUpdate && e.rssi is Some {
                e.rssi->0 as int
            } else {
                0
            }
            &&& a.start_time == w.start_time
        }),
{
}

} // verus!
