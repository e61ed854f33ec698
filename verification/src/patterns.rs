//! Whole-queue patterns: an advertising flood and a possible pairing
//! attack, whatever the devices involved.

use std::collections::VecDeque;

use vstd::prelude::*;

use crate::models::{BluetoothEvent, EventType};

verus! {

/// How many of the events have type `t`.
pub open spec fn count_of_type(events: Seq<BluetoothEvent>, t: EventType) -> nat
    decreases events.len(),
{
    if events.len() == 0 {
        0
    } else {
        count_of_type(events.drop_last(), t) + if events.last().event_type == t {
            1nat
        } else {
            0nat
        }
    }
}

/// What the pattern engine found in a queue.
#[derive(Debug)]
pub struct PatternReport {
    /// The number of advertising reports, when they are 20 or more.
    pub advertising_flood: Option<usize>,
    /// The numbers of pairing requests and of authentication failures, when
    /// both are 3 or more.
    pub pairing_attack: Option<(usize, usize)>,
}

/// Checks the recent events for whole-queue patterns.
pub struct PatternEngine;

fn count_type(events: &VecDeque<BluetoothEvent>, t: EventType) -> (r: usize)
    ensures
        r == count_of_type(events@, t),
{
    let n = events.len();
    let mut c: usize = 0;
    let mut i: usize = 0;
    assert(events@.subrange(0, 0) =~= Seq::<BluetoothEvent>::empty());
    while i < n
        invariant
            n == events@.len(),
            i <= n,
            c == count_of_type(events@.subrange(0, i as int), t),
            c <= i,
        decreases n - i,
    {
        assert(events@.subrange(0, i + 1).drop_last() =~= events@.subrange(0, i as int));
        if events[i].event_type == t {
            c += 1;
        }
        i += 1;
    }
    assert(events@.subrange(0, n as int) =~= events@);
    c
}

impl PatternEngine {
    /// An engine.
    pub fn new() -> (r: Self) {
        PatternEngine
    }

    /// Runs both pattern checks.
    pub fn analyze(&self, events: &VecDeque<BluetoothEvent>) -> (r: PatternReport)
        ensures
            r.advertising_flood == self.spec_advertising_flood(events@),
            r.pairing_attack == self.spec_pairing_attack(events@),
    {
        PatternReport {
            advertising_flood: self.detect_advertising_flood(events),
            pairing_attack: self.detect_pairing_attack(events),
        }
    }

    /// The number of advertising reports in the events, when it is 20 or more.
    pub open spec fn spec_advertising_flood(&self, events: Seq<BluetoothEvent>) -> Option<usize> {
        let n = count_of_type(events, EventType::AdvertisingReport);
        if n >= 20 {
            Some(n as usize)
        } else {
            None
        }
    }

    /// The numbers of pairing requests and authentication failures, when both are 3 or more.
    pub open spec fn spec_pairing_attack(&self, events: Seq<BluetoothEvent>) -> Option<(usize, usize)> {
        let p = count_of_type(events, EventType::PairingRequest);
        let f = count_of_type(events, EventType::AuthenticationFailed);
        if p >= 3 && f >= 3 {
            Some((p as usize, f as usize))
        } else {
            None
        }
    }

    /// Twenty or more advertising reports in the queue.
    pub fn detect_advertising_flood(&self, events: &VecDeque<BluetoothEvent>) -> (r: Option<usize>)
        ensures
            r == self.spec_advertising_flood(events@),
    {
        let advertising = count_type(events, EventType::AdvertisingReport);
        if advertising >= 20 {
            Some(advertising)
        } else {
            None
        }
    }

    /// Three or more pairing requests together with three or more
    /// authentication failures in the queue.
    pub fn detect_pairing_attack(&self, events: &VecDeque<BluetoothEvent>) -> (r: Option<(usize, usize)>)
        ensures
            r == self.spec_pairing_attack(events@),
    {
        let pairing = count_type(events, EventType::PairingRequest);
        let auth_failed = count_type(events, EventType::AuthenticationFailed);
        if pairing >= 3 && auth_failed >= 3 {
            Some((pairing, auth_failed))
        } else {
            None
        }
    }
}

} // verus!
