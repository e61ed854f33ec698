//! Signature based detection over the recent events, with one alert per
//! rule and device until the condition clears.

use std::collections::VecDeque;

use vstd::prelude::*;

use crate::models::{device_mac, device_mac_of, BluetoothEvent, EventType, SecurityAlert};
use crate::numtext::{dec_chars, dec_text, signed_dec_chars, signed_dec_text};
use crate::signatures::{is_rule_table, load_signatures, DetectionMode, Signature};
use crate::text::{
    append_chars, append_str, chars_of, occurs_at, split_once, split_once_str, starts_with_chars,
    string_of,
};
use crate::textmap::TextMap;
use crate::time::{age_seconds, seconds_between, utc_now, Timestamp};

verus! {

// ------------------------------------------------------------------
// Counting
// ------------------------------------------------------------------

/// Per-device counts, with the devices in the order first counted.
pub struct Tally {
    pub order: Seq<Seq<char>>,
    pub count: Map<Seq<char>, nat>,
}

/// No device counted.
pub open spec fn empty_tally() -> Tally {
    Tally { order: Seq::empty(), count: Map::empty() }
}

/// One more for device `m`.
pub open spec fn bump(t: Tally, m: Seq<char>) -> Tally {
    if t.count.contains_key(m) {
        Tally { order: t.order, count: t.count.insert(m, t.count[m] + 1) }
    } else {
        Tally { order: t.order.push(m), count: t.count.insert(m, 1) }
    }
}

/// The count of device `m`, zero when it was not counted.
pub open spec fn tally_count(t: Tally, m: Seq<char>) -> nat {
    if t.count.contains_key(m) {
        t.count[m]
    } else {
        0
    }
}

/// The event is at most `window` whole seconds old and not in the future.
pub open spec fn in_window(e: BluetoothEvent, window: i64, now: Timestamp) -> bool {
    0 <= age_seconds(now, e.timestamp) <= window
}

/// The event counts toward a rule of the event-count kind: it has the
/// rule's type, lies in its window, and has a device address.
pub open spec fn counted(e: BluetoothEvent, sig: Signature, now: Timestamp) -> bool {
    &&& e.event_type == sig.event_type
    &&& in_window(e, sig.window_seconds, now)
    &&& device_mac(e) is Some
}

/// Matching events per device.
pub open spec fn event_tally(events: Seq<BluetoothEvent>, sig: Signature, now: Timestamp) -> Tally
    decreases events.len(),
{
    if events.len() == 0 {
        empty_tally()
    } else {
        let prev = event_tally(events.drop_last(), sig, now);
        let e = events.last();
        if counted(e, sig, now) {
            bump(prev, device_mac(e)->0)
        } else {
            prev
        }
    }
}

/// Devices seen connected and completed connect -> disconnect cycles.
pub struct Cycles {
    pub connected: Set<Seq<char>>,
    pub cycles: Tally,
}

/// Walking the events in the window in order: a connection marks the device
/// connected; a disconnection of a device marked connected unmarks it and
/// completes one cycle. Duplicate connection events add no cycle.
pub open spec fn cycle_tally(events: Seq<BluetoothEvent>, window: i64, now: Timestamp) -> Cycles
    decreases events.len(),
{
    if events.len() == 0 {
        Cycles { connected: Set::empty(), cycles: empty_tally() }
    } else {
        let prev = cycle_tally(events.drop_last(), window, now);
        let e = events.last();
        if in_window(e, window, now) && device_mac(e) is Some {
            let m = device_mac(e)->0;
            if e.event_type == EventType::ConnectionComplete {
                Cycles { connected: prev.connected.insert(m), cycles: prev.cycles }
            } else if e.event_type == EventType::DisconnectionComplete && prev.connected.contains(m) {
                Cycles { connected: prev.connected.remove(m), cycles: bump(prev.cycles, m) }
            } else {
                prev
            }
        } else {
            prev
        }
    }
}

/// What a rule counts per device.
pub open spec fn rule_tally(events: Seq<BluetoothEvent>, sig: Signature, now: Timestamp) -> Tally {
    match sig.detection_mode {
        DetectionMode::ConnectionCycle => cycle_tally(events, sig.window_seconds, now).cycles,
        _ => event_tally(events, sig, now),
    }
}

/// A tally held in a text map matches `t`.
pub open spec fn tally_matches(m: TextMap<usize>, t: Tally) -> bool {
    &&& m.wf()
    &&& m.keys() == t.order
    &&& m@.dom() == t.count.dom()
    &&& forall|k: Seq<char>| #[trigger] m@.contains_key(k) ==> m@[k] as nat == t.count[k]
}

/// Every count of `t` is at most `bound`.
pub open spec fn counts_at_most(t: Tally, bound: nat) -> bool {
    forall|k: Seq<char>| #[trigger] t.count.contains_key(k) ==> t.count[k] <= bound
}

fn bump_exec(m: &mut TextMap<usize>, key: Vec<char>, Ghost(t): Ghost<Tally>, Ghost(bound): Ghost<nat>)
    requires
        tally_matches(*old(m), t),
        counts_at_most(t, bound),
        bound < usize::MAX,
    ensures
        tally_matches(*final(m), bump(t, key@)),
        counts_at_most(bump(t, key@), bound + 1),
{
    match m.find(key.as_slice()) {
        Some(i) => {
            let c = *m.value_at(i);
            m.set_value_at(i, c + 1);
            proof {
                let t2 = bump(t, key@);
                assert(m@.dom() =~= t2.count.dom());
            }
        },
        None => {
            m.insert(key, 1);
            proof {
                let t2 = bump(t, key@);
                assert(m@.dom() =~= t2.count.dom());
            }
        },
    }
}

/// The value of an event's device address as counted.
fn counted_exec(e: &BluetoothEvent, sig: &Signature, now: Timestamp) -> (r: Option<Vec<char>>)
    ensures
        counted(*e, *sig, now) ==> (r matches Some(m) && m@ == device_mac(*e)->0),
        !counted(*e, *sig, now) ==> r is None,
{
    if e.event_type != sig.event_type {
        return None;
    }
    let age = seconds_between(now, e.timestamp);
    if age < 0 || age > sig.window_seconds as i128 {
        return None;
    }
    device_mac_of(e)
}

/// Matching events per device, in the order first seen.
fn count_events_per_device(events: &VecDeque<BluetoothEvent>, sig: &Signature, now: Timestamp) -> (r: TextMap<usize>)
    ensures
        tally_matches(r, event_tally(events@, *sig, now)),
{
    let mut counts: TextMap<usize> = TextMap::new();
    let n = events.len();
    let mut i: usize = 0;
    assert(events@.subrange(0, 0) =~= Seq::<BluetoothEvent>::empty());
    proof {
        assert(counts@.dom() =~= empty_tally().count.dom());
    }
    while i < n
        invariant
            n == events@.len(),
            i <= n,
            tally_matches(counts, event_tally(events@.subrange(0, i as int), *sig, now)),
            counts_at_most(event_tally(events@.subrange(0, i as int), *sig, now), i as nat),
        decreases n - i,
    {
        let ghost prev = events@.subrange(0, i as int);
        let ghost next = events@.subrange(0, i + 1);
        assert(next.drop_last() =~= prev);
        let e = &events[i];
        assert(next.last() == *e);
        match counted_exec(e, sig, now) {
            Some(m) => {
                bump_exec(&mut counts, m, Ghost(event_tally(prev, *sig, now)), Ghost(i as nat));
            },
            None => {
                assert(counts_at_most(event_tally(next, *sig, now), (i + 1) as nat));
            },
        }
        i += 1;
    }
    assert(events@.subrange(0, n as int) =~= events@);
    counts
}

/// Whether an event lies in a window of `window` seconds at `now`.
fn in_window_exec(e: &BluetoothEvent, window: i64, now: Timestamp) -> (r: bool)
    ensures
        r == in_window(*e, window, now),
{
    let age = seconds_between(now, e.timestamp);
    0 <= age && age <= window as i128
}

/// Completed connect -> disconnect cycles per device, in the order first
/// completed.
fn count_connection_cycles(events: &VecDeque<BluetoothEvent>, window_seconds: i64, now: Timestamp) -> (r: TextMap<usize>)
    ensures
        tally_matches(r, cycle_tally(events@, window_seconds, now).cycles),
{
    let mut connected: TextMap<()> = TextMap::new();
    let mut cycles: TextMap<usize> = TextMap::new();
    let n = events.len();
    let mut i: usize = 0;
    assert(events@.subrange(0, 0) =~= Seq::<BluetoothEvent>::empty());
    proof {
        assert(cycles@.dom() =~= empty_tally().count.dom());
        assert(connected@.dom() =~= Set::<Seq<char>>::empty());
    }
    while i < n
        invariant
            n == events@.len(),
            i <= n,
            connected.wf(),
            connected@.dom() == cycle_tally(events@.subrange(0, i as int), window_seconds, now).connected,
            tally_matches(cycles, cycle_tally(events@.subrange(0, i as int), window_seconds, now).cycles),
            counts_at_most(cycle_tally(events@.subrange(0, i as int), window_seconds, now).cycles, i as nat),
        decreases n - i,
    {
        let ghost prev = events@.subrange(0, i as int);
        let ghost next = events@.subrange(0, i + 1);
        assert(next.drop_last() =~= prev);
        let e = &events[i];
        assert(next.last() == *e);
        let ghost pc = cycle_tally(prev, window_seconds, now);
        if in_window_exec(e, window_seconds, now) {
            match device_mac_of(e) {
                Some(mac) => {
                    if e.event_type == EventType::ConnectionComplete {
                        connected.insert(mac, ());
                        assert(connected@.dom() =~= pc.connected.insert(device_mac(*e)->0));
                    } else if e.event_type == EventType::DisconnectionComplete {
                        match connected.remove(mac.as_slice()) {
                            Some(_) => {
                                assert(connected@.dom() =~= pc.connected.remove(mac@));
                                bump_exec(&mut cycles, mac, Ghost(pc.cycles), Ghost(i as nat));
                            },
                            None => {},
                        }
                    }
                },
                None => {},
            }
        }
        i += 1;
    }
    assert(events@.subrange(0, n as int) =~= events@);
    cycles
}

// ------------------------------------------------------------------
// Alerts
// ------------------------------------------------------------------

/// The key under which a rule's alert for a device is remembered:
/// `RULE|MAC`.
pub open spec fn alert_key(name: Seq<char>, m: Seq<char>) -> Seq<char> {
    name + "|"@ + m
}

/// An alert is remembered as active under `k`.
pub open spec fn is_active(a: Map<Seq<char>, bool>, k: Seq<char>) -> bool {
    a.contains_key(k) && a[k]
}

/// The count from which a rule fires: one for immediate rules, else the
/// rule's threshold.
pub open spec fn trigger_floor(sig: Signature) -> nat {
    match sig.detection_mode {
        DetectionMode::Immediate => 1,
        _ => sig.threshold as nat,
    }
}

/// Device `m` makes the rule fire: its count reaches the floor and no
/// alert of the rule for it is active.
pub open spec fn fires(t: Tally, sig: Signature, a: Map<Seq<char>, bool>, m: Seq<char>) -> bool {
    tally_count(t, m) >= trigger_floor(sig) && !is_active(a, alert_key(sig.name@, m))
}

/// The devices of `order` for which the rule fires, in order.
pub open spec fn fired(order: Seq<Seq<char>>, t: Tally, sig: Signature, a: Map<Seq<char>, bool>) -> Seq<Seq<char>>
    decreases order.len(),
{
    if order.len() == 0 {
        Seq::empty()
    } else {
        let prev = fired(order.drop_last(), t, sig, a);
        if fires(t, sig, a, order.last()) {
            prev.push(order.last())
        } else {
            prev
        }
    }
}

/// `a` with the alerts of rule `name` for the devices `f` marked active.
pub open spec fn mark_all(a: Map<Seq<char>, bool>, name: Seq<char>, f: Seq<Seq<char>>) -> Map<Seq<char>, bool>
    decreases f.len(),
{
    if f.len() == 0 {
        a
    } else {
        mark_all(a, name, f.drop_last()).insert(alert_key(name, f.last()), true)
    }
}

/// Key `k` is an alert of the rule whose device now counts below the
/// rule's threshold.
pub open spec fn clears(k: Seq<char>, sig: Signature, t: Tally) -> bool {
    &&& (sig.name@ + "|"@).is_prefix_of(k)
    &&& match split_once(k, "|"@) {
        Some(p) => tally_count(t, p.1) < sig.threshold,
        None => false,
    }
}

/// The alerts of the rule whose condition cleared become inactive.
pub open spec fn after_reset(a: Map<Seq<char>, bool>, sig: Signature, t: Tally) -> Map<Seq<char>, bool> {
    Map::new(|k: Seq<char>| a.contains_key(k), |k: Seq<char>| if clears(k, sig, t) { false } else { a[k] })
}

/// One rule alerting a device, with the device's count.
pub struct Finding {
    pub sig: Signature,
    pub mac: Seq<char>,
    pub count: nat,
}

/// The findings of a rule for the devices `f`.
pub open spec fn findings_of(sig: Signature, t: Tally, f: Seq<Seq<char>>) -> Seq<Finding> {
    f.map_values(|m: Seq<char>| Finding { sig, mac: m, count: tally_count(t, m) })
}

/// The rules `sigs` applied in order to the events at `now`, starting from
/// the active alerts `a`: the active alerts afterwards and the findings.
pub open spec fn run_rules(sigs: Seq<Signature>, events: Seq<BluetoothEvent>, now: Timestamp, a: Map<Seq<char>, bool>) -> (Map<Seq<char>, bool>, Seq<Finding>)
    decreases sigs.len(),
{
    if sigs.len() == 0 {
        (a, Seq::empty())
    } else {
        let prev = run_rules(sigs.drop_last(), events, now, a);
        let sig = sigs.last();
        let t = rule_tally(events, sig, now);
        let f = fired(t.order, t, sig, prev.0);
        (after_reset(mark_all(prev.0, sig.name@, f), sig, t), prev.1 + findings_of(sig, t, f))
    }
}

/// The alert text of a finding.
pub open spec fn details_text(sig: Signature, m: Seq<char>, count: nat) -> Seq<char> {
    match sig.detection_mode {
        DetectionMode::EventCount => sig.description@ + " Device "@ + m + " generated "@ + dec_text(
            count,
        ) + " matching events within "@ + signed_dec_text(sig.window_seconds as int)
            + " seconds. Threshold: "@ + dec_text(sig.threshold as nat) + "."@,
        DetectionMode::ConnectionCycle => sig.description@ + " Device "@ + m + " completed "@
            + dec_text(count) + " rapid connection/disconnection cycles within "@ + signed_dec_text(
            sig.window_seconds as int,
        ) + " seconds. Threshold: "@ + dec_text(sig.threshold as nat) + " cycles."@,
        DetectionMode::Immediate => sig.description@ + " Device: "@ + m + "."@,
    }
}

/// An alert newly raised by a rule, with the count that raised it.
#[derive(Debug)]
pub struct TriggeredAlert {
    pub alert: SecurityAlert,
    pub count: usize,
}

/// `x` is the alert of finding `f`.
pub open spec fn alert_matches(x: TriggeredAlert, f: Finding) -> bool {
    &&& x.alert.name@ == f.sig.name@
    &&& x.alert.severity@ == f.sig.severity@
    &&& crate::text::opt_text(x.alert.mac) == Some(f.mac)
    &&& x.alert.details@ == details_text(f.sig, f.mac, f.count)
    &&& x.count == f.count
}

/// The alerts are those of the findings, in order.
pub open spec fn alerts_match(xs: Seq<TriggeredAlert>, fs: Seq<Finding>) -> bool {
    &&& xs.len() == fs.len()
    &&& forall|i: int| 0 <= i < xs.len() ==> alert_matches(#[trigger] xs[i], fs[i])
}

proof fn lemma_alert_key_injective(name: Seq<char>, m1: Seq<char>, m2: Seq<char>)
    requires
        alert_key(name, m1) == alert_key(name, m2),
    ensures
        m1 == m2,
{
    reveal_strlit("|");
    let k = alert_key(name, m1);
    let n = name.len() + 1;
    assert(k.subrange(n as int, k.len() as int) =~= m1);
    assert(alert_key(name, m2).subrange(n as int, alert_key(name, m2).len() as int) =~= m2);
}

proof fn lemma_fired_within(order: Seq<Seq<char>>, t: Tally, sig: Signature, a: Map<Seq<char>, bool>)
    ensures
        forall|x: Seq<char>| #[trigger] fired(order, t, sig, a).contains(x) ==> order.contains(x),
    decreases order.len(),
{
    if order.len() > 0 {
        lemma_fired_within(order.drop_last(), t, sig, a);
        assert forall|x: Seq<char>| #[trigger] fired(order, t, sig, a).contains(x) implies order.contains(x) by {
            let prev = fired(order.drop_last(), t, sig, a);
            if prev.contains(x) {
                let i = choose|i: int| 0 <= i < order.drop_last().len() && order.drop_last()[i] == x;
                assert(order[i] == x);
            } else {
                assert(order[order.len() - 1] == x);
            }
        }
    }
}

proof fn lemma_mark_other(a: Map<Seq<char>, bool>, name: Seq<char>, f: Seq<Seq<char>>, m: Seq<char>)
    requires
        !f.contains(m),
    ensures
        mark_all(a, name, f).contains_key(alert_key(name, m)) == a.contains_key(alert_key(name, m)),
        mark_all(a, name, f).contains_key(alert_key(name, m)) ==> mark_all(a, name, f)[alert_key(name, m)] == a[alert_key(name, m)],
    decreases f.len(),
{
    if f.len() > 0 {
        assert(!f.drop_last().contains(m)) by {
            if f.drop_last().contains(m) {
                let i = choose|i: int| 0 <= i < f.drop_last().len() && f.drop_last()[i] == m;
                assert(f[i] == m);
            }
        }
        lemma_mark_other(a, name, f.drop_last(), m);
        if alert_key(name, f.last()) == alert_key(name, m) {
            lemma_alert_key_injective(name, f.last(), m);
            assert(f[f.len() - 1] == m);
        }
    }
}

/// The text `name|`.
fn rule_prefix(name: &str) -> (r: Vec<char>)
    ensures
        r@ == name@ + "|"@,
{
    let mut r = chars_of(name);
    append_str(&mut r, "|");
    r
}

/// The alert text of a rule for a device and count.
fn details_chars(sig: &Signature, m: &[char], count: usize) -> (r: Vec<char>)
    ensures
        r@ == details_text(*sig, m@, count as nat),
{
    let mut d = chars_of(sig.description);
    match sig.detection_mode {
        DetectionMode::EventCount => {
            append_str(&mut d, " Device ");
            append_chars(&mut d, m);
            append_str(&mut d, " generated ");
            append_chars(&mut d, dec_chars(count as u64).as_slice());
            append_str(&mut d, " matching events within ");
            append_chars(&mut d, signed_dec_chars(sig.window_seconds).as_slice());
            append_str(&mut d, " seconds. Threshold: ");
            append_chars(&mut d, dec_chars(sig.threshold as u64).as_slice());
            append_str(&mut d, ".");
        },
        DetectionMode::ConnectionCycle => {
            append_str(&mut d, " Device ");
            append_chars(&mut d, m);
            append_str(&mut d, " completed ");
            append_chars(&mut d, dec_chars(count as u64).as_slice());
            append_str(&mut d, " rapid connection/disconnection cycles within ");
            append_chars(&mut d, signed_dec_chars(sig.window_seconds).as_slice());
            append_str(&mut d, " seconds. Threshold: ");
            append_chars(&mut d, dec_chars(sig.threshold as u64).as_slice());
            append_str(&mut d, " cycles.");
        },
        DetectionMode::Immediate => {
            append_str(&mut d, " Device: ");
            append_chars(&mut d, m);
            append_str(&mut d, ".");
        },
    }
    d
}

/// Raises the rule's alerts for the devices that make it fire and marks
/// them active.
fn trigger_rule(active: &mut TextMap<bool>, alerts: &mut Vec<TriggeredAlert>, sig: &Signature, counts: &TextMap<usize>, Ghost(t): Ghost<Tally>)
    requires
        old(active).wf(),
        tally_matches(*counts, t),
    ensures
        final(active).wf(),
        final(active)@ == mark_all(old(active)@, sig.name@, fired(t.order, t, *sig, old(active)@)),
        final(alerts)@.len() >= old(alerts)@.len(),
        final(alerts)@.subrange(0, old(alerts)@.len() as int) == old(alerts)@,
        alerts_match(
            final(alerts)@.subrange(old(alerts)@.len() as int, final(alerts)@.len() as int),
            findings_of(*sig, t, fired(t.order, t, *sig, old(active)@)),
        ),
{
    let ghost a0 = active@;
    let ghost old_alerts = alerts@;
    let ghost base = alerts@.len();
    let n = counts.len();
    let prefix = rule_prefix(sig.name);
    let floor: usize = match sig.detection_mode {
        DetectionMode::Immediate => 1,
        _ => sig.threshold,
    };
    proof {
        counts.lemma_keys();
    }
    let mut k: usize = 0;
    assert(t.order.subrange(0, 0) =~= Seq::<Seq<char>>::empty());
    assert(alerts@.subrange(base as int, alerts@.len() as int) =~= Seq::<TriggeredAlert>::empty());
    while k < n
        invariant
            n == t.order.len(),
            k <= n,
            tally_matches(*counts, t),
            t.order.no_duplicates(),
            floor == trigger_floor(*sig),
            prefix@ == sig.name@ + "|"@,
            active.wf(),
            active@ == mark_all(a0, sig.name@, fired(t.order.subrange(0, k as int), t, *sig, a0)),
            alerts@.len() >= base,
            base == old_alerts.len(),
            alerts@.subrange(0, base as int) == old_alerts,
            alerts_match(
                alerts@.subrange(base as int, alerts@.len() as int),
                findings_of(*sig, t, fired(t.order.subrange(0, k as int), t, *sig, a0)),
            ),
        decreases n - k,
    {
        let ghost pre = t.order.subrange(0, k as int);
        let ghost post = t.order.subrange(0, k + 1);
        assert(post.drop_last() =~= pre);
        let m = counts.key_at(k);
        let c = *counts.value_at(k);
        let ghost mv = m@;
        assert(post.last() == mv);
        assert(tally_count(t, mv) == c);
        proof {
            lemma_fired_within(pre, t, *sig, a0);
            assert(!fired(pre, t, *sig, a0).contains(mv)) by {
                if fired(pre, t, *sig, a0).contains(mv) {
                    assert(pre.contains(mv));
                    let j = choose|j: int| 0 <= j < pre.len() && pre[j] == mv;
                    assert(t.order[j] == t.order[k as int]);
                }
            }
            lemma_mark_other(a0, sig.name@, fired(pre, t, *sig, a0), mv);
        }
        if c >= floor {
            let mut key = prefix.clone();
            append_chars(&mut key, m.as_slice());
            assert(key@ == alert_key(sig.name@, mv));
            let already = match active.get(key.as_slice()) {
                Some(b) => *b,
                None => false,
            };
            if !already {
                let details = details_chars(sig, m.as_slice(), c);
                let alert = TriggeredAlert {
                    alert: SecurityAlert {
                        name: string_of(chars_of(sig.name).as_slice()),
                        severity: string_of(chars_of(sig.severity).as_slice()),
                        mac: Some(string_of(m.as_slice())),
                        details: string_of(details.as_slice()),
                    },
                    count: c,
                };
                let ghost before = alerts@;
                alerts.push(alert);
                active.insert(key, true);
                proof {
                    assert(fired(post, t, *sig, a0) == fired(pre, t, *sig, a0).push(mv));
                    assert(fired(post, t, *sig, a0).drop_last() =~= fired(pre, t, *sig, a0));
                    assert(alerts@.subrange(0, base as int) =~= before.subrange(0, base as int));
                    let news = alerts@.subrange(base as int, alerts@.len() as int);
                    let olds = before.subrange(base as int, before.len() as int);
                    assert(news =~= olds.push(alerts@.last()));
                    let fs = findings_of(*sig, t, fired(post, t, *sig, a0));
                    assert(fs =~= findings_of(*sig, t, fired(pre, t, *sig, a0)).push(Finding { sig: *sig, mac: mv, count: tally_count(t, mv) }));
                    assert forall|i: int| 0 <= i < news.len() implies alert_matches(#[trigger] news[i], fs[i]) by {
                        if i < olds.len() {
                            assert(news[i] == olds[i]);
                        }
                    }
                }
            } else {
                assert(fired(post, t, *sig, a0) == fired(pre, t, *sig, a0));
            }
        } else {
            assert(fired(post, t, *sig, a0) == fired(pre, t, *sig, a0));
        }
        k += 1;
    }
    assert(t.order.subrange(0, n as int) =~= t.order);
}

/// Marks inactive the rule's alerts whose device now counts below the
/// rule's threshold.
fn reset_cleared_alerts(active: &mut TextMap<bool>, sig: &Signature, counts: &TextMap<usize>, Ghost(t): Ghost<Tally>)
    requires
        old(active).wf(),
        tally_matches(*counts, t),
    ensures
        final(active).wf(),
        final(active)@ == after_reset(old(active)@, *sig, t),
{
    let ghost a1 = active@;
    let ghost keys = active.keys();
    let prefix = rule_prefix(sig.name);
    let n = active.len();
    proof {
        active.lemma_keys();
    }
    let mut i: usize = 0;
    assert(active@ =~= Map::new(
        |k: Seq<char>| a1.contains_key(k),
        |k: Seq<char>| if clears(k, *sig, t) && keys.subrange(0, 0).contains(k) { false } else { a1[k] },
    ));
    while i < n
        invariant
            n == keys.len(),
            i <= n,
            keys.no_duplicates(),
            forall|k: Seq<char>| #[trigger] a1.contains_key(k) <==> keys.contains(k),
            prefix@ == sig.name@ + "|"@,
            tally_matches(*counts, t),
            active.wf(),
            active.keys() == keys,
            active@ == Map::new(
                |k: Seq<char>| a1.contains_key(k),
                |k: Seq<char>| if clears(k, *sig, t) && keys.subrange(0, i as int).contains(k) { false } else { a1[k] },
            ),
        decreases n - i,
    {
        let ghost ki = keys[i as int];
        let k = active.key_at(i);
        let mut clear = false;
        if starts_with_chars(k.as_slice(), prefix.as_slice()) {
            match split_once_str(k.as_slice(), "|") {
                Some(parts) => {
                    let c: usize = match counts.get(parts.1.as_slice()) {
                        Some(v) => *v,
                        None => 0,
                    };
                    clear = c < sig.threshold;
                },
                None => {},
            }
        }
        assert(clear == clears(ki, *sig, t));
        let ghost before = active@;
        if clear {
            active.set_value_at(i, false);
        }
        proof {
            assert(a1.contains_key(ki));
            let s0 = keys.subrange(0, i as int);
            let s1 = keys.subrange(0, i + 1);
            assert(s1 =~= s0.push(ki));
            assert forall|k: Seq<char>| #[trigger] s1.contains(k) <==> (s0.contains(k) || k == ki) by {
                if s1.contains(k) {
                    let j = choose|j: int| 0 <= j < s1.len() && s1[j] == k;
                    if j < s0.len() {
                        assert(s0[j] == k);
                    }
                }
                if s0.contains(k) {
                    let j = choose|j: int| 0 <= j < s0.len() && s0[j] == k;
                    assert(s1[j] == k);
                }
                if k == ki {
                    assert(s1[s0.len() as int] == k);
                }
            }
            assert(!s0.contains(ki)) by {
                if s0.contains(ki) {
                    let j = choose|j: int| 0 <= j < s0.len() && s0[j] == ki;
                    assert(keys[j] == keys[i as int]);
                }
            }
            assert(active@ =~= Map::new(
                |k: Seq<char>| a1.contains_key(k),
                |k: Seq<char>| if clears(k, *sig, t) && keys.subrange(0, i + 1).contains(k) { false } else { a1[k] },
            ));
        }
        i += 1;
    }
    proof {
        assert(keys.subrange(0, n as int) =~= keys);
        assert(active@ =~= after_reset(a1, *sig, t));
    }
}

/// The rules in use and the alerts remembered as active per `RULE|MAC`.
pub struct PatternDetector {
    signatures: Vec<Signature>,
    active_alerts: TextMap<bool>,
}

impl View for PatternDetector {
    type V = Map<Seq<char>, bool>;

    /// The remembered alerts: active or cleared, per `RULE|MAC`.
    closed spec fn view(&self) -> Map<Seq<char>, bool> {
        self.active_alerts@
    }
}

impl PatternDetector {
    /// The rules in the order they are applied.
    pub closed spec fn rules(&self) -> Seq<Signature> {
        self.signatures@
    }

    /// The rules are the sensor's and the remembered alerts are held consistently.
    pub closed spec fn wf(&self) -> bool {
        self.active_alerts.wf() && is_rule_table(self.signatures@)
    }

    /// A detector with the sensor's rules and no alert remembered.
    pub fn new() -> (r: Self)
        ensures
            r.wf(),
            is_rule_table(r.rules()),
            r@ == Map::<Seq<char>, bool>::empty(),
    {
        PatternDetector { signatures: load_signatures(), active_alerts: TextMap::new() }
    }

    /// Applies every rule, in order, to the recent events at `now`. A rule
    /// raises one alert per device whose count reaches it while no alert of
    /// the rule for that device is active; the alert becomes active and
    /// stays so until the device's count falls below the rule's threshold.
    pub fn process_at(&mut self, events: &VecDeque<BluetoothEvent>, now: Timestamp) -> (r: Vec<TriggeredAlert>)
        requires
            old(self).wf(),
        ensures
            final(self).wf(),
            final(self).rules() == old(self).rules(),
            final(self)@ == run_rules(old(self).rules(), events@, now, old(self)@).0,
            alerts_match(r@, run_rules(old(self).rules(), events@, now, old(self)@).1),
    {
        let ghost a0 = self@;
        let ghost sigs = self.signatures@;
        let mut alerts: Vec<TriggeredAlert> = Vec::new();
        let n = self.signatures.len();
        let mut j: usize = 0;
        assert(sigs.subrange(0, 0) =~= Seq::<Signature>::empty());
        while j < n
            invariant
                n == sigs.len(),
                j <= n,
                self.signatures@ == sigs,
                self.wf(),
                self@ == run_rules(sigs.subrange(0, j as int), events@, now, a0).0,
                alerts_match(alerts@, run_rules(sigs.subrange(0, j as int), events@, now, a0).1),
            decreases n - j,
        {
            let ghost pre = sigs.subrange(0, j as int);
            let ghost post = sigs.subrange(0, j + 1);
            assert(post.drop_last() =~= pre);
            let sig = self.signatures[j];
            assert(post.last() == sig);
            let ghost t = rule_tally(events@, sig, now);
            let counts = match sig.detection_mode {
                DetectionMode::ConnectionCycle => count_connection_cycles(events, sig.window_seconds, now),
                _ => count_events_per_device(events, &sig, now),
            };
            let ghost a_before = self@;
            let ghost alerts_before = alerts@;
            trigger_rule(&mut self.active_alerts, &mut alerts, &sig, &counts, Ghost(t));
            let ghost f = fired(t.order, t, sig, a_before);
            reset_cleared_alerts(&mut self.active_alerts, &sig, &counts, Ghost(t));
            proof {
                let fs_before = run_rules(pre, events@, now, a0).1;
                let fs = run_rules(post, events@, now, a0).1;
                assert(fs == fs_before + findings_of(sig, t, f));
                let news = alerts@.subrange(alerts_before.len() as int, alerts@.len() as int);
                assert(alerts@ =~= alerts_before + news);
                assert forall|i: int| 0 <= i < alerts@.len() implies alert_matches(#[trigger] alerts@[i], fs[i]) by {
                    if i < alerts_before.len() {
                        assert(alerts@[i] == alerts_before[i]);
                    } else {
                        assert(alerts@[i] == news[i - alerts_before.len()]);
                    }
                }
            }
            j += 1;
        }
        assert(sigs.subrange(0, n as int) =~= sigs);
        alerts
    }

    /// Applies every rule to the recent events at the current time (see
    /// `process_at`).
    pub fn process(&mut self, events: &VecDeque<BluetoothEvent>) -> (r: Vec<TriggeredAlert>)
        requires
            old(self).wf(),
        ensures
            final(self).wf(),
            final(self).rules() == old(self).rules(),
            exists|now: Timestamp| {
                &&& final(self)@ == run_rules(old(self).rules(), events@, now, old(self)@).0
                &&& alerts_match(r@, run_rules(old(self).rules(), events@, now, old(self)@).1)
            },
    {
        let now = utc_now();
        self.process_at(events, now)
    }
}

// ------------------------------------------------------------------
// One alert per continuing condition
// ------------------------------------------------------------------

/// The text holds no `|`.
pub open spec fn has_no_bar(s: Seq<char>) -> bool {
    forall|i: int| 0 <= i < s.len() ==> s[i] != '|'
}

/// The rules keep their alerts apart: names are distinct and hold no `|`,
/// thresholds are positive, and a rule fires from its threshold.
pub open spec fn rules_separate(sigs: Seq<Signature>) -> bool {
    &&& forall|i: int| 0 <= i < sigs.len() ==> has_no_bar(#[trigger] sigs[i].name@)
    &&& forall|i: int| 0 <= i < sigs.len() ==> #[trigger] sigs[i].threshold >= 1
    &&& forall|i: int| 0 <= i < sigs.len() ==> trigger_floor(#[trigger] sigs[i]) == sigs[i].threshold
    &&& forall|i: int, j: int| 0 <= i < sigs.len() && 0 <= j < sigs.len() && i != j ==> #[trigger] sigs[i].name@ != #[trigger] sigs[j].name@
}

/// Every device on which the rule's condition holds (its count reaches the
/// threshold) has the rule's alert active.
pub open spec fn rule_held(a: Map<Seq<char>, bool>, sig: Signature, events: Seq<BluetoothEvent>, now: Timestamp) -> bool {
    forall|m: Seq<char>| #[trigger] tally_count(rule_tally(events, sig, now), m) >= sig.threshold ==> is_active(a, alert_key(sig.name@, m))
}

/// Devices are counted once in the order and only counted devices are in it.
pub open spec fn tally_wf(t: Tally) -> bool {
    &&& t.order.no_duplicates()
    &&& forall|m: Seq<char>| #[trigger] t.count.contains_key(m) <==> t.order.contains(m)
}

proof fn lemma_bump_wf(t: Tally, m: Seq<char>)
    requires
        tally_wf(t),
    ensures
        tally_wf(bump(t, m)),
{
    let b = bump(t, m);
    if !t.count.contains_key(m) {
        assert forall|k: Seq<char>| #[trigger] b.count.contains_key(k) <==> b.order.contains(k) by {
            if b.order.contains(k) && k != m {
                let i = choose|i: int| 0 <= i < b.order.len() && b.order[i] == k;
                assert(t.order[i] == k);
            }
            if k == m {
                assert(b.order[t.order.len() as int] == m);
            } else if t.order.contains(k) {
                let i = choose|i: int| 0 <= i < t.order.len() && t.order[i] == k;
                assert(b.order[i] == k);
            }
        }
        assert forall|i: int, j: int| 0 <= i < b.order.len() && 0 <= j < b.order.len() && i != j implies b.order[i] != b.order[j] by {
            if i < t.order.len() && j < t.order.len() {
            } else if i < t.order.len() {
                assert(t.order.contains(b.order[i]));
            } else {
                assert(t.order.contains(b.order[j]));
            }
        }
    }
}

proof fn lemma_event_tally_wf(events: Seq<BluetoothEvent>, sig: Signature, now: Timestamp)
    ensures
        tally_wf(event_tally(events, sig, now)),
    decreases events.len(),
{
    if events.len() > 0 {
        lemma_event_tally_wf(events.drop_last(), sig, now);
        let e = events.last();
        if counted(e, sig, now) {
            lemma_bump_wf(event_tally(events.drop_last(), sig, now), device_mac(e)->0);
        }
    }
}

proof fn lemma_cycle_tally_wf(events: Seq<BluetoothEvent>, window: i64, now: Timestamp)
    ensures
        tally_wf(cycle_tally(events, window, now).cycles),
    decreases events.len(),
{
    if events.len() > 0 {
        lemma_cycle_tally_wf(events.drop_last(), window, now);
        let prev = cycle_tally(events.drop_last(), window, now);
        let e = events.last();
        if in_window(e, window, now) && device_mac(e) is Some {
            lemma_bump_wf(prev.cycles, device_mac(e)->0);
        }
    }
}

proof fn lemma_rule_tally_wf(events: Seq<BluetoothEvent>, sig: Signature, now: Timestamp)
    ensures
        tally_wf(rule_tally(events, sig, now)),
{
    lemma_event_tally_wf(events, sig, now);
    lemma_cycle_tally_wf(events, sig.window_seconds, now);
}

/// The first `|` of `name|m` follows `name`, so the key splits back into
/// the rule name and the device.
proof fn lemma_key_split(name: Seq<char>, m: Seq<char>)
    requires
        has_no_bar(name),
    ensures
        split_once(alert_key(name, m), "|"@) == Some((name, m)),
{
    reveal_strlit("|");
    let k = alert_key(name, m);
    let bar = "|"@;
    assert(occurs_at(k, bar, name.len() as int)) by {
        assert(k.subrange(name.len() as int, (name.len() + 1) as int) =~= bar);
    }
    assert forall|i: int| 0 <= i < name.len() implies !occurs_at(k, bar, i) by {
        if occurs_at(k, bar, i) {
            assert(k.subrange(i, i + 1)[0] == k[i]);
            assert(k[i] == name[i]);
        }
    }
    lemma_find_prefix_free(k, bar, name.len() as int, 0);
    assert(k.subrange(0, name.len() as int) =~= name);
    assert(k.subrange((name.len() + 1) as int, k.len() as int) =~= m);
}

/// When `needle` first occurs at `p`, searching from any `i <= p` finds `p`.
proof fn lemma_find_prefix_free(h: Seq<char>, needle: Seq<char>, p: int, i: int)
    requires
        0 <= i <= p,
        occurs_at(h, needle, p),
        forall|j: int| i <= j < p ==> !occurs_at(h, needle, j),
    ensures
        crate::text::find_from(h, needle, i) == Some(p),
    decreases p - i,
{
    if i < p {
        lemma_find_prefix_free(h, needle, p, i + 1);
    }
}

/// A key of one rule never starts with another rule's `name|`.
proof fn lemma_keys_apart(own: Seq<char>, other: Seq<char>, m: Seq<char>)
    requires
        has_no_bar(own),
        has_no_bar(other),
        own != other,
    ensures
        !(other + "|"@).is_prefix_of(alert_key(own, m)),
{
    reveal_strlit("|");
    let k = alert_key(own, m);
    let p = other + "|"@;
    if p.is_prefix_of(k) {
        if other.len() < own.len() {
            assert(p[other.len() as int] == k[other.len() as int]);
            assert(k[other.len() as int] == own[other.len() as int]);
        } else if other.len() > own.len() {
            assert(p[own.len() as int] == k[own.len() as int]);
            assert(p[own.len() as int] == other[own.len() as int]);
        } else {
            assert(other =~= own) by {
                assert forall|i: int| 0 <= i < other.len() implies other[i] == own[i] by {
                    assert(p[i] == k[i]);
                }
            }
        }
    }
}

proof fn lemma_mark_keeps_active(a: Map<Seq<char>, bool>, name: Seq<char>, f: Seq<Seq<char>>, k: Seq<char>)
    requires
        is_active(a, k),
    ensures
        is_active(mark_all(a, name, f), k),
    decreases f.len(),
{
    if f.len() > 0 {
        lemma_mark_keeps_active(a, name, f.drop_last(), k);
    }
}

proof fn lemma_mark_sets(a: Map<Seq<char>, bool>, name: Seq<char>, f: Seq<Seq<char>>, m: Seq<char>)
    requires
        f.contains(m),
    ensures
        is_active(mark_all(a, name, f), alert_key(name, m)),
    decreases f.len(),
{
    if f.last() != m {
        let i = choose|i: int| 0 <= i < f.len() && f[i] == m;
        assert(f.drop_last()[i] == m);
        lemma_mark_sets(a, name, f.drop_last(), m);
    }
}

proof fn lemma_fired_has(order: Seq<Seq<char>>, t: Tally, sig: Signature, a: Map<Seq<char>, bool>, m: Seq<char>)
    requires
        order.contains(m),
        fires(t, sig, a, m),
    ensures
        fired(order, t, sig, a).contains(m),
    decreases order.len(),
{
    let prev = fired(order.drop_last(), t, sig, a);
    if order.last() == m {
        assert(fired(order, t, sig, a)[prev.len() as int] == m);
    } else {
        let i = choose|i: int| 0 <= i < order.len() && order[i] == m;
        assert(order.drop_last()[i] == m);
        lemma_fired_has(order.drop_last(), t, sig, a, m);
        let j = choose|j: int| 0 <= j < prev.len() && prev[j] == m;
        if fires(t, sig, a, order.last()) {
            assert(fired(order, t, sig, a)[j] == m);
        }
    }
}

proof fn lemma_fired_none(order: Seq<Seq<char>>, t: Tally, sig: Signature, a: Map<Seq<char>, bool>)
    requires
        forall|m: Seq<char>| #[trigger] order.contains(m) ==> !fires(t, sig, a, m),
    ensures
        fired(order, t, sig, a) == Seq::<Seq<char>>::empty(),
    decreases order.len(),
{
    if order.len() > 0 {
        assert forall|m: Seq<char>| #[trigger] order.drop_last().contains(m) implies !fires(t, sig, a, m) by {
            let i = choose|i: int| 0 <= i < order.drop_last().len() && order.drop_last()[i] == m;
            assert(order[i] == m);
            assert(order.contains(m));
        }
        lemma_fired_none(order.drop_last(), t, sig, a);
        assert(order.contains(order.last())) by {
            assert(order[order.len() - 1] == order.last());
        }
    }
}

/// One rule step: the rule's condition holds afterwards, and an active
/// alert of a rule apart from it stays active.
proof fn lemma_step(a: Map<Seq<char>, bool>, sig: Signature, events: Seq<BluetoothEvent>, now: Timestamp)
    requires
        has_no_bar(sig.name@),
        sig.threshold >= 1,
        trigger_floor(sig) == sig.threshold,
    ensures
        ({
            let t = rule_tally(events, sig, now);
            let after = after_reset(mark_all(a, sig.name@, fired(t.order, t, sig, a)), sig, t);
            &&& rule_held(after, sig, events, now)
            &&& forall|other: Seq<char>, m: Seq<char>| has_no_bar(other) && other != sig.name@ && #[trigger] is_active(a, alert_key(other, m)) ==> is_active(after, alert_key(other, m))
        }),
{
    let t = rule_tally(events, sig, now);
    let f = fired(t.order, t, sig, a);
    let marked = mark_all(a, sig.name@, f);
    let after = after_reset(marked, sig, t);
    lemma_rule_tally_wf(events, sig, now);
    assert forall|m: Seq<char>| #[trigger] tally_count(rule_tally(events, sig, now), m) >= sig.threshold implies is_active(after, alert_key(sig.name@, m)) by {
        let k = alert_key(sig.name@, m);
        assert(t.count.contains_key(m));
        assert(t.order.contains(m));
        if is_active(a, k) {
            lemma_mark_keeps_active(a, sig.name@, f, k);
        } else {
            lemma_fired_has(t.order, t, sig, a, m);
            lemma_mark_sets(a, sig.name@, f, m);
        }
        lemma_key_split(sig.name@, m);
        assert(!clears(k, sig, t));
    }
    assert forall|other: Seq<char>, m: Seq<char>| has_no_bar(other) && other != sig.name@ && #[trigger] is_active(a, alert_key(other, m)) implies is_active(after, alert_key(other, m)) by {
        let k = alert_key(other, m);
        lemma_mark_keeps_active(a, sig.name@, f, k);
        lemma_keys_apart(other, sig.name@, m);
        assert(!clears(k, sig, t));
    }
}

/// Running rules keeps every held condition of the rules that were run
/// before, and establishes it for the rules run.
proof fn lemma_run_holds(sigs: Seq<Signature>, n: int, events: Seq<BluetoothEvent>, now: Timestamp, a: Map<Seq<char>, bool>)
    requires
        rules_separate(sigs),
        0 <= n <= sigs.len(),
    ensures
        forall|i: int| 0 <= i < n ==> rule_held(run_rules(sigs.subrange(0, n), events, now, a).0, #[trigger] sigs[i], events, now),
        forall|i: int| 0 <= i < sigs.len() && rule_held(a, #[trigger] sigs[i], events, now) ==> rule_held(run_rules(sigs.subrange(0, n), events, now, a).0, sigs[i], events, now),
    decreases n,
{
    if n > 0 {
        lemma_run_holds(sigs, n - 1, events, now, a);
        let pre = sigs.subrange(0, n - 1);
        let post = sigs.subrange(0, n);
        assert(post.drop_last() =~= pre);
        let sig = sigs[n - 1];
        assert(post.last() == sig);
        let prev = run_rules(pre, events, now, a).0;
        lemma_step(prev, sig, events, now);
        let after = run_rules(post, events, now, a).0;
        assert forall|i: int| 0 <= i < sigs.len() && i != n - 1 && rule_held(prev, #[trigger] sigs[i], events, now) implies rule_held(after, sigs[i], events, now) by {
            assert(sigs[i].name@ != sig.name@);
            assert(has_no_bar(sigs[i].name@));
            assert forall|m: Seq<char>| #[trigger] tally_count(rule_tally(events, sigs[i], now), m) >= sigs[i].threshold implies is_active(after, alert_key(sigs[i].name@, m)) by {
                assert(is_active(prev, alert_key(sigs[i].name@, m)));
            }
        }
    }
}

/// While every rule's condition is held, running the rules raises nothing
/// and keeps the conditions held.
proof fn lemma_run_quiet(sigs: Seq<Signature>, n: int, events: Seq<BluetoothEvent>, now: Timestamp, a: Map<Seq<char>, bool>)
    requires
        rules_separate(sigs),
        0 <= n <= sigs.len(),
        forall|i: int| 0 <= i < sigs.len() ==> rule_held(a, #[trigger] sigs[i], events, now),
    ensures
        run_rules(sigs.subrange(0, n), events, now, a).1.len() == 0,
        forall|i: int| 0 <= i < sigs.len() ==> rule_held(run_rules(sigs.subrange(0, n), events, now, a).0, #[trigger] sigs[i], events, now),
    decreases n,
{
    lemma_run_holds(sigs, n, events, now, a);
    if n > 0 {
        lemma_run_quiet(sigs, n - 1, events, now, a);
        let pre = sigs.subrange(0, n - 1);
        let post = sigs.subrange(0, n);
        assert(post.drop_last() =~= pre);
        let sig = sigs[n - 1];
        assert(post.last() == sig);
        let prev = run_rules(pre, events, now, a).0;
        let t = rule_tally(events, sig, now);
        assert(rule_held(prev, sig, events, now));
        assert forall|m: Seq<char>| #[trigger] t.order.contains(m) implies !fires(t, sig, prev, m) by {
            if tally_count(t, m) >= trigger_floor(sig) {
                assert(tally_count(rule_tally(events, sig, now), m) >= sig.threshold);
            }
        }
        lemma_fired_none(t.order, t, sig, prev);
        assert(findings_of(sig, t, fired(t.order, t, sig, prev)).len() == 0);
    }
}

/// A continuing condition raises one alert, not one per check: whatever
/// alerts were active before, once the rules have run on some events at
/// some time, running them again on the same events at the same time
/// raises no alert and leaves every rule's condition held.
pub proof fn no_duplicate_alerts(sigs: Seq<Signature>, events: Seq<BluetoothEvent>, now: Timestamp, a: Map<Seq<char>, bool>)
    requires
        rules_separate(sigs),
    ensures
        run_rules(sigs, events, now, run_rules(sigs, events, now, a).0).1.len() == 0,
        forall|i: int| 0 <= i < sigs.len() ==> rule_held(run_rules(sigs, events, now, a).0, #[trigger] sigs[i], events, now),
{
    assert(sigs.subrange(0, sigs.len() as int) =~= sigs);
    lemma_run_holds(sigs, sigs.len() as int, events, now, a);
    lemma_run_quiet(sigs, sigs.len() as int, events, now, run_rules(sigs, events, now, a).0);
}

/// The sensor's rules keep their alerts apart.
pub proof fn rule_table_is_separate(sigs: Seq<Signature>)
    requires
        is_rule_table(sigs),
    ensures
        rules_separate(sigs),
{
    reveal_strlit("Advertising Flood");
    reveal_strlit("Repeated Connection Failure");
    reveal_strlit("Authentication Brute Force");
    reveal_strlit("Pairing Request Flood");
    reveal_strlit("Suspicious Connection Cycling");
    reveal_strlit("Reconnection Flood");
    reveal_strlit("Encryption Downgrade");
    reveal_strlit("HCI Error Spike");
    let lens = seq![17nat, 27nat, 26nat, 21nat, 29nat, 18nat, 20nat, 15nat];
    assert forall|i: int| 0 <= i < 8 implies #[trigger] sigs[i].name@.len() == lens[i] by {}
    assert forall|i: int| 0 <= i < sigs.len() implies has_no_bar(#[trigger] sigs[i].name@) by {
        let n = sigs[i].name@;
        assert forall|j: int| 0 <= j < n.len() implies n[j] != '|' by {
            if i == 0 {} else if i == 1 {} else if i == 2 {} else if i == 3 {} else if i == 4 {} else if i == 5 {} else if i == 6 {} else {}
        }
    }
    assert forall|i: int| 0 <= i < sigs.len() implies trigger_floor(#[trigger] sigs[i]) == sigs[i].threshold by {}
    assert forall|i: int, j: int| 0 <= i < sigs.len() && 0 <= j < sigs.len() && i != j implies #[trigger] sigs[i].name@ != #[trigger] sigs[j].name@ by {
        assert(lens[i] != lens[j]);
        assert(sigs[i].name@.len() != sigs[j].name@.len());
    }
}

/// Every device on which the rule's condition does not hold (its count is
/// below the threshold) has no active alert of the rule.
pub open spec fn rule_cleared(a: Map<Seq<char>, bool>, sig: Signature, events: Seq<BluetoothEvent>, now: Timestamp) -> bool {
    forall|m: Seq<char>| #[trigger] tally_count(rule_tally(events, sig, now), m) < sig.threshold ==> !is_active(a, alert_key(sig.name@, m))
}

proof fn lemma_mark_untouched(a: Map<Seq<char>, bool>, name: Seq<char>, f: Seq<Seq<char>>, k: Seq<char>)
    requires
        forall|x: Seq<char>| alert_key(name, x) != k,
    ensures
        is_active(mark_all(a, name, f), k) == is_active(a, k),
    decreases f.len(),
{
    if f.len() > 0 {
        lemma_mark_untouched(a, name, f.drop_last(), k);
        assert(alert_key(name, f.last()) != k);
    }
}

/// One rule step clears the rule's alerts whose condition ended, and an
/// inactive alert of a rule apart from it stays inactive.
proof fn lemma_step_clears(a: Map<Seq<char>, bool>, sig: Signature, events: Seq<BluetoothEvent>, now: Timestamp)
    requires
        has_no_bar(sig.name@),
    ensures
        ({
            let t = rule_tally(events, sig, now);
            let after = after_reset(mark_all(a, sig.name@, fired(t.order, t, sig, a)), sig, t);
            &&& rule_cleared(after, sig, events, now)
            &&& forall|other: Seq<char>, m: Seq<char>| has_no_bar(other) && other != sig.name@ && !#[trigger] is_active(a, alert_key(other, m)) ==> !is_active(after, alert_key(other, m))
        }),
{
    let t = rule_tally(events, sig, now);
    let f = fired(t.order, t, sig, a);
    let marked = mark_all(a, sig.name@, f);
    let after = after_reset(marked, sig, t);
    assert forall|m: Seq<char>| #[trigger] tally_count(rule_tally(events, sig, now), m) < sig.threshold implies !is_active(after, alert_key(sig.name@, m)) by {
        let k = alert_key(sig.name@, m);
        lemma_key_split(sig.name@, m);
        assert((sig.name@ + "|"@).is_prefix_of(k)) by {
            assert(k.subrange(0, (sig.name@ + "|"@).len() as int) =~= sig.name@ + "|"@);
        }
        assert(clears(k, sig, t));
    }
    assert forall|other: Seq<char>, m: Seq<char>| has_no_bar(other) && other != sig.name@ && !#[trigger] is_active(a, alert_key(other, m)) implies !is_active(after, alert_key(other, m)) by {
        let k = alert_key(other, m);
        assert forall|x: Seq<char>| alert_key(sig.name@, x) != k by {
            if alert_key(sig.name@, x) == k {
                lemma_keys_apart(other, sig.name@, m);
                assert((sig.name@ + "|"@).is_prefix_of(alert_key(sig.name@, x))) by {
                    assert(alert_key(sig.name@, x).subrange(0, (sig.name@ + "|"@).len() as int) =~= sig.name@ + "|"@);
                }
            }
        }
        lemma_mark_untouched(a, sig.name@, f, k);
    }
}

proof fn lemma_run_clears(sigs: Seq<Signature>, n: int, events: Seq<BluetoothEvent>, now: Timestamp, a: Map<Seq<char>, bool>)
    requires
        rules_separate(sigs),
        0 <= n <= sigs.len(),
    ensures
        forall|i: int| 0 <= i < n ==> rule_cleared(run_rules(sigs.subrange(0, n), events, now, a).0, #[trigger] sigs[i], events, now),
    decreases n,
{
    if n > 0 {
        lemma_run_clears(sigs, n - 1, events, now, a);
        let pre = sigs.subrange(0, n - 1);
        let post = sigs.subrange(0, n);
        assert(post.drop_last() =~= pre);
        let sig = sigs[n - 1];
        assert(post.last() == sig);
        let prev = run_rules(pre, events, now, a).0;
        lemma_step_clears(prev, sig, events, now);
        let after = run_rules(post, events, now, a).0;
        assert forall|i: int| 0 <= i < n - 1 implies rule_cleared(after, #[trigger] sigs[i], events, now) by {
            assert(sigs[i].name@ != sig.name@);
            assert(has_no_bar(sigs[i].name@));
            assert(rule_cleared(prev, sigs[i], events, now));
            assert forall|m: Seq<char>| #[trigger] tally_count(rule_tally(events, sigs[i], now), m) < sigs[i].threshold implies !is_active(after, alert_key(sigs[i].name@, m)) by {
                assert(!is_active(prev, alert_key(sigs[i].name@, m)));
            }
        }
    }
}

/// After the rules run, a rule's alert for a device is active exactly when
/// the rule's condition holds for it: an alert is raised once per
/// continuing condition and clears when the activity leaves the window, so
/// a new incident can be raised later.
pub proof fn alerts_follow_conditions(sigs: Seq<Signature>, events: Seq<BluetoothEvent>, now: Timestamp, a: Map<Seq<char>, bool>)
    requires
        rules_separate(sigs),
    ensures
        forall|i: int, m: Seq<char>| 0 <= i < sigs.len() ==> (is_active(
            run_rules(sigs, events, now, a).0,
            alert_key(#[trigger] sigs[i].name@, m),
        ) <==> #[trigger] tally_count(rule_tally(events, sigs[i], now), m) >= sigs[i].threshold),
{
    assert(sigs.subrange(0, sigs.len() as int) =~= sigs);
    lemma_run_holds(sigs, sigs.len() as int, events, now, a);
    lemma_run_clears(sigs, sigs.len() as int, events, now, a);
    let fin = run_rules(sigs, events, now, a).0;
    assert forall|i: int, m: Seq<char>| 0 <= i < sigs.len() implies (is_active(fin, alert_key(#[trigger] sigs[i].name@, m)) <==> #[trigger] tally_count(rule_tally(events, sigs[i], now), m) >= sigs[i].threshold) by {
        assert(rule_held(fin, sigs[i], events, now));
        assert(rule_cleared(fin, sigs[i], events, now));
    }
}

proof fn lemma_mark_dom(a: Map<Seq<char>, bool>, name: Seq<char>, f: Seq<Seq<char>>, k: Seq<char>)
    ensures
        mark_all(a, name, f).contains_key(k) <==> (a.contains_key(k) || exists|j: int| #![trigger f[j]] 0 <= j < f.len() && alert_key(name, f[j]) == k),
    decreases f.len(),
{
    if f.len() > 0 {
        let g = f.drop_last();
        lemma_mark_dom(a, name, g, k);
        if exists|j: int| #![trigger g[j]] 0 <= j < g.len() && alert_key(name, g[j]) == k {
            let j = choose|j: int| #![trigger g[j]] 0 <= j < g.len() && alert_key(name, g[j]) == k;
            assert(f[j] == g[j]);
        }
        if exists|j: int| #![trigger f[j]] 0 <= j < f.len() && alert_key(name, f[j]) == k {
            let j = choose|j: int| #![trigger f[j]] 0 <= j < f.len() && alert_key(name, f[j]) == k;
            if j < g.len() {
                assert(g[j] == f[j]);
            } else {
                assert(f[j] == f.last());
            }
        }
        if alert_key(name, f.last()) == k {
            assert(f[f.len() - 1] == f.last());
        }
    }
}

proof fn lemma_fired_fire(order: Seq<Seq<char>>, t: Tally, sig: Signature, a: Map<Seq<char>, bool>)
    ensures
        forall|j: int| 0 <= j < fired(order, t, sig, a).len() ==> fires(t, sig, a, #[trigger] fired(order, t, sig, a)[j]),
    decreases order.len(),
{
    if order.len() > 0 {
        lemma_fired_fire(order.drop_last(), t, sig, a);
        let prev = fired(order.drop_last(), t, sig, a);
        let cur = fired(order, t, sig, a);
        assert forall|j: int| 0 <= j < cur.len() implies fires(t, sig, a, #[trigger] cur[j]) by {
            if j < prev.len() {
                assert(cur[j] == prev[j]);
            }
        }
    }
}

/// One rule step keeps the remembered keys and adds the rule's keys of the
/// devices whose count reaches the threshold.
proof fn lemma_step_dom(prev: Map<Seq<char>, bool>, sig: Signature, events: Seq<BluetoothEvent>, now: Timestamp, k: Seq<char>)
    requires
        sig.threshold >= 1,
        trigger_floor(sig) == sig.threshold,
    ensures
        ({
            let t = rule_tally(events, sig, now);
            let after = after_reset(mark_all(prev, sig.name@, fired(t.order, t, sig, prev)), sig, t);
            after.contains_key(k) <==> (prev.contains_key(k) || exists|m: Seq<char>| #[trigger] alert_key(sig.name@, m) == k && tally_count(t, m) >= sig.threshold)
        }),
{
    let t = rule_tally(events, sig, now);
    let f = fired(t.order, t, sig, prev);
    let marked = mark_all(prev, sig.name@, f);
    let after = after_reset(marked, sig, t);
    assert(after.contains_key(k) == marked.contains_key(k));
    lemma_mark_dom(prev, sig.name@, f, k);
    lemma_fired_fire(t.order, t, sig, prev);
    lemma_rule_tally_wf(events, sig, now);
    if exists|j: int| #![trigger f[j]] 0 <= j < f.len() && alert_key(sig.name@, f[j]) == k {
        let j = choose|j: int| #![trigger f[j]] 0 <= j < f.len() && alert_key(sig.name@, f[j]) == k;
        assert(fires(t, sig, prev, f[j]));
        assert(alert_key(sig.name@, f[j]) == k && tally_count(t, f[j]) >= sig.threshold);
    }
    if !prev.contains_key(k) && exists|m: Seq<char>| #[trigger] alert_key(sig.name@, m) == k && tally_count(t, m) >= sig.threshold {
        let m = choose|m: Seq<char>| #[trigger] alert_key(sig.name@, m) == k && tally_count(t, m) >= sig.threshold;
        assert(t.count.contains_key(m));
        assert(t.order.contains(m));
        assert(fires(t, sig, prev, m));
        lemma_fired_has(t.order, t, sig, prev, m);
        let j = choose|j: int| 0 <= j < f.len() && f[j] == m;
        assert(alert_key(sig.name@, f[j]) == k);
    }
}

/// Key `k` is the alert key of one of the first `n` rules for a device
/// whose count for that rule reaches its threshold.
pub open spec fn reached_threshold(sigs: Seq<Signature>, n: int, events: Seq<BluetoothEvent>, now: Timestamp, k: Seq<char>) -> bool {
    exists|i: int, m: Seq<char>|
        0 <= i < n && #[trigger] alert_key(sigs[i].name@, m) == k && tally_count(rule_tally(events, sigs[i], now), m) >= sigs[i].threshold
}

proof fn lemma_run_dom(sigs: Seq<Signature>, n: int, events: Seq<BluetoothEvent>, now: Timestamp, a: Map<Seq<char>, bool>)
    requires
        rules_separate(sigs),
        0 <= n <= sigs.len(),
    ensures
        forall|k: Seq<char>| #[trigger] run_rules(sigs.subrange(0, n), events, now, a).0.contains_key(k) <==> (a.contains_key(k) || reached_threshold(sigs, n, events, now, k)),
    decreases n,
{
    if n > 0 {
        lemma_run_dom(sigs, n - 1, events, now, a);
        let pre = sigs.subrange(0, n - 1);
        let post = sigs.subrange(0, n);
        assert(post.drop_last() =~= pre);
        let sig = sigs[n - 1];
        assert(post.last() == sig);
        let prev = run_rules(pre, events, now, a).0;
        let after = run_rules(post, events, now, a).0;
        let t = rule_tally(events, sig, now);
        assert forall|k: Seq<char>| #[trigger] after.contains_key(k) <==> (a.contains_key(k) || reached_threshold(sigs, n, events, now, k)) by {
            lemma_step_dom(prev, sig, events, now, k);
            if reached_threshold(sigs, n, events, now, k) {
                let (i, m) = choose|i: int, m: Seq<char>|
                    0 <= i < n && #[trigger] alert_key(sigs[i].name@, m) == k && tally_count(rule_tally(events, sigs[i], now), m) >= sigs[i].threshold;
                if i < n - 1 {
                    assert(reached_threshold(sigs, n - 1, events, now, k));
                } else {
                    assert(alert_key(sig.name@, m) == k && tally_count(t, m) >= sig.threshold);
                }
            }
            if reached_threshold(sigs, n - 1, events, now, k) {
                let (i, m) = choose|i: int, m: Seq<char>|
                    0 <= i < n - 1 && #[trigger] alert_key(sigs[i].name@, m) == k && tally_count(rule_tally(events, sigs[i], now), m) >= sigs[i].threshold;
                assert(alert_key(sigs[i].name@, m) == k);
            }
            if exists|m: Seq<char>| #[trigger] alert_key(sig.name@, m) == k && tally_count(t, m) >= sig.threshold {
                let m = choose|m: Seq<char>| #[trigger] alert_key(sig.name@, m) == k && tally_count(t, m) >= sig.threshold;
                assert(alert_key(sigs[n - 1].name@, m) == k);
            }
        }
    }
}

/// Which alerts are remembered after the rules run: every key remembered
/// before, and the key `RULE|MAC` of every rule and device whose count
/// reaches the rule's threshold, with nothing else. A remembered key of a
/// rule is active exactly while the device's count reaches the threshold.
pub proof fn remembered_alerts(sigs: Seq<Signature>, events: Seq<BluetoothEvent>, now: Timestamp, a: Map<Seq<char>, bool>)
    requires
        rules_separate(sigs),
    ensures
        forall|k: Seq<char>| #[trigger] run_rules(sigs, events, now, a).0.contains_key(k) <==> (a.contains_key(k) || reached_threshold(sigs, sigs.len() as int, events, now, k)),
        forall|i: int, m: Seq<char>| 0 <= i < sigs.len() && run_rules(sigs, events, now, a).0.contains_key(alert_key(#[trigger] sigs[i].name@, m)) ==>
            run_rules(sigs, events, now, a).0[alert_key(sigs[i].name@, m)] == (#[trigger] tally_count(rule_tally(events, sigs[i], now), m) >= sigs[i].threshold),
{
    assert(sigs.subrange(0, sigs.len() as int) =~= sigs);
    lemma_run_dom(sigs, sigs.len() as int, events, now, a);
    alerts_follow_conditions(sigs, events, now, a);
}

/// With every rule's condition held and every cleared condition inactive,
/// running the rules changes no remembered alert.
proof fn lemma_run_fixed(sigs: Seq<Signature>, n: int, events: Seq<BluetoothEvent>, now: Timestamp, fin: Map<Seq<char>, bool>)
    requires
        rules_separate(sigs),
        0 <= n <= sigs.len(),
        forall|i: int| 0 <= i < sigs.len() ==> rule_held(fin, #[trigger] sigs[i], events, now),
        forall|i: int| 0 <= i < sigs.len() ==> rule_cleared(fin, #[trigger] sigs[i], events, now),
    ensures
        run_rules(sigs.subrange(0, n), events, now, fin).0 == fin,
    decreases n,
{
    if n > 0 {
        lemma_run_fixed(sigs, n - 1, events, now, fin);
        let pre = sigs.subrange(0, n - 1);
        let post = sigs.subrange(0, n);
        assert(post.drop_last() =~= pre);
        let sig = sigs[n - 1];
        assert(post.last() == sig);
        let t = rule_tally(events, sig, now);
        assert(rule_held(fin, sig, events, now));
        assert(rule_cleared(fin, sig, events, now));
        assert(has_no_bar(sig.name@));
        assert forall|m: Seq<char>| #[trigger] t.order.contains(m) implies !fires(t, sig, fin, m) by {
            if tally_count(t, m) >= trigger_floor(sig) {
                assert(tally_count(rule_tally(events, sig, now), m) >= sig.threshold);
            }
        }
        lemma_fired_none(t.order, t, sig, fin);
        let f = fired(t.order, t, sig, fin);
        assert(mark_all(fin, sig.name@, f) == fin);
        let after = after_reset(fin, sig, t);
        assert forall|k: Seq<char>| #[trigger] fin.contains_key(k) implies after[k] == fin[k] by {
            if clears(k, sig, t) {
                reveal_strlit("|");
                let pre_k = sig.name@ + "|"@;
                let rest = k.subrange(pre_k.len() as int, k.len() as int);
                assert(k =~= alert_key(sig.name@, rest)) by {
                    assert(k.subrange(0, pre_k.len() as int) =~= pre_k);
                }
                lemma_key_split(sig.name@, rest);
                assert(tally_count(rule_tally(events, sig, now), rest) < sig.threshold);
                assert(!is_active(fin, alert_key(sig.name@, rest)));
            }
        }
        assert(after =~= fin);
    }
}

/// A second run of the rules on the same events at the same time raises
/// nothing and leaves the remembered alerts exactly as the first run left
/// them.
pub proof fn repeated_check_changes_nothing(sigs: Seq<Signature>, events: Seq<BluetoothEvent>, now: Timestamp, a: Map<Seq<char>, bool>)
    requires
        rules_separate(sigs),
    ensures
        run_rules(sigs, events, now, run_rules(sigs, events, now, a).0).0 == run_rules(sigs, events, now, a).0,
        run_rules(sigs, events, now, run_rules(sigs, events, now, a).0).1.len() == 0,
{
    let fin = run_rules(sigs, events, now, a).0;
    assert(sigs.subrange(0, sigs.len() as int) =~= sigs);
    lemma_run_holds(sigs, sigs.len() as int, events, now, a);
    lemma_run_clears(sigs, sigs.len() as int, events, now, a);
    lemma_run_fixed(sigs, sigs.len() as int, events, now, fin);
    no_duplicate_alerts(sigs, events, now, a);
}

/// How many in-window events of type `t` the device `m` has.
pub open spec fn device_events(events: Seq<BluetoothEvent>, t: EventType, window: i64, now: Timestamp, m: Seq<char>) -> nat
    decreases events.len(),
{
    if events.len() == 0 {
        0
    } else {
        let e = events.last();
        device_events(events.drop_last(), t, window, now, m) + if e.event_type == t && in_window(e, window, now)
            && device_mac(e) == Some(m) {
            1nat
        } else {
            0nat
        }
    }
}

proof fn lemma_bump_count(t: Tally, x: Seq<char>, m: Seq<char>)
    ensures
        tally_count(bump(t, x), m) == tally_count(t, m) + if x == m {
            1nat
        } else {
            0nat
        },
{
}

/// A connect -> disconnect cycle needs its own connection and its own
/// disconnection: a device never completes more cycles than it has
/// connections, nor more than it has disconnections, in the window; and a
/// device still marked connected has a connection not yet used by a cycle.
pub proof fn cycles_need_connections(events: Seq<BluetoothEvent>, window: i64, now: Timestamp, m: Seq<char>)
    ensures
        tally_count(cycle_tally(events, window, now).cycles, m) + (if cycle_tally(events, window, now).connected.contains(m) {
            1nat
        } else {
            0nat
        }) <= device_events(events, EventType::ConnectionComplete, window, now, m),
        tally_count(cycle_tally(events, window, now).cycles, m) <= device_events(events, EventType::DisconnectionComplete, window, now, m),
    decreases events.len(),
{
    if events.len() > 0 {
        cycles_need_connections(events.drop_last(), window, now, m);
        let prev = cycle_tally(events.drop_last(), window, now);
        let e = events.last();
        if in_window(e, window, now) && device_mac(e) is Some {
            let x = device_mac(e)->0;
            lemma_bump_count(prev.cycles, x, m);
        }
    }
}

/// An event-count rule counts, for each device, exactly the device's
/// events of the rule's type that lie in the rule's window.
pub proof fn event_counts_are_per_device(events: Seq<BluetoothEvent>, sig: Signature, now: Timestamp, m: Seq<char>)
    ensures
        tally_count(event_tally(events, sig, now), m) == device_events(events, sig.event_type, sig.window_seconds, now, m),
    decreases events.len(),
{
    if events.len() > 0 {
        event_counts_are_per_device(events.drop_last(), sig, now, m);
        let e = events.last();
        if counted(e, sig, now) {
            lemma_bump_count(event_tally(events.drop_last(), sig, now), device_mac(e)->0, m);
        }
    }
}

} // verus!
