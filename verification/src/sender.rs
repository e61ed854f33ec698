//! Numbering of exported security event files, and keeping an exported
//! event in step with its incident's SOC status.

use vstd::prelude::*;

use crate::events::{status_name, status_text};
use crate::models::{IncidentStatus, SecurityEvent, SecurityIncident};
use crate::numtext::{padded_dec_chars, padded_dec_text, parse_u32, parse_unsigned};
use crate::text::{
    append_chars, chars_eq, chars_of, ends_with_str, starts_with_str, string_of, strip_prefixes,
    strip_prefixes_str, strip_suffixes, strip_suffixes_str,
};

verus! {

/// The number of an event file named `BT_EVT_<number>.json`.
pub open spec fn file_number(name: Seq<char>) -> Option<int> {
    if "BT_EVT_"@.is_prefix_of(name) && ".json"@.is_suffix_of(name) {
        parse_unsigned(strip_suffixes(strip_prefixes(name, "BT_EVT_"@), ".json"@), 10, 4294967295)
    } else {
        None
    }
}

/// The largest event file number among the names, zero when there is none.
pub open spec fn max_file_number(names: Seq<Seq<char>>) -> nat
    decreases names.len(),
{
    if names.len() == 0 {
        0
    } else {
        let m = max_file_number(names.drop_last());
        match file_number(names.last()) {
            Some(v) => if v > m {
                v as nat
            } else {
                m
            },
            None => m,
        }
    }
}

/// The identifier of event number `n`: `BT_EVT_` and at least six digits.
pub open spec fn event_id_text(n: nat) -> Seq<char> {
    "BT_EVT_"@ + padded_dec_text(n, 6)
}

/// The response an incident's status calls for.
pub open spec fn hint_for_status(s: IncidentStatus) -> Seq<char> {
    match s {
        IncidentStatus::Approved => "contain_device"@,
        IncidentStatus::Rejected => "no_action"@,
        IncidentStatus::Monitoring => "continue_monitoring"@,
        IncidentStatus::FalsePositive => "allow_device"@,
        IncidentStatus::PendingSocReview => "log_and_alert"@,
    }
}

/// Names the exported event files and refreshes exported events.
pub struct EventSender;

fn file_number_of(name: &[char]) -> (r: Option<u32>)
    ensures
        match r {
            Some(v) => file_number(name@) == Some(v as int),
            None => file_number(name@) is None,
        },
{
    if starts_with_str(name, "BT_EVT_") && ends_with_str(name, ".json") {
        let a = strip_prefixes_str(name, "BT_EVT_");
        let b = strip_suffixes_str(a.as_slice(), ".json");
        parse_u32(b.as_slice())
    } else {
        None
    }
}

impl EventSender {
    /// A sender.
    pub fn new() -> (r: Self) {
        EventSender
    }

    /// The largest event file number among the file names, zero when there
    /// is none.
    pub fn largest_event_number(&self, names: &Vec<String>) -> (r: u32)
        ensures
            r == max_file_number(names@.map_values(|s: String| s@)),
    {
        let ghost views = names@.map_values(|s: String| s@);
        let mut max_id: u32 = 0;
        let mut i: usize = 0;
        assert(views.subrange(0, 0) =~= Seq::<Seq<char>>::empty());
        while i < names.len()
            invariant
                i <= names@.len(),
                views == names@.map_values(|s: String| s@),
                max_id == max_file_number(views.subrange(0, i as int)),
            decreases names.len() - i,
        {
            assert(views.subrange(0, i + 1).drop_last() =~= views.subrange(0, i as int));
            let name = chars_of(names[i].as_str());
            match file_number_of(name.as_slice()) {
                Some(v) => {
                    if v > max_id {
                        max_id = v;
                    }
                },
                None => {},
            }
            i += 1;
        }
        assert(views.subrange(0, names@.len() as int) =~= views);
        max_id
    }

    /// The identifier for the next event file, one past the largest number
    /// among the existing file names.
    pub fn next_event_id_from(&self, names: &Vec<String>) -> (r: String)
        requires
            max_file_number(names@.map_values(|s: String| s@)) < 4294967295,
        ensures
            r@ == event_id_text(max_file_number(names@.map_values(|s: String| s@)) + 1),
    {
        let max_id = self.largest_event_number(names);
        let mut r = chars_of("BT_EVT_");
        append_chars(&mut r, padded_dec_chars((max_id + 1) as u64, 6).as_slice());
        string_of(r.as_slice())
    }

    /// When the event belongs to the incident, sets its SOC status and the
    /// response that status calls for, and answers `true`; otherwise leaves
    /// it as it was.
    pub fn refresh_event(&self, event: &mut SecurityEvent, incident: &SecurityIncident) -> (r: bool)
        ensures
            r == (old(event).soc_incident@ == incident.id@),
            r ==> final(event).soc_status@ == status_text(incident.status) && final(event).action_hint@
                == hint_for_status(incident.status) && *final(event) == (SecurityEvent {
                soc_status: final(event).soc_status,
                action_hint: final(event).action_hint,
                ..*old(event)
            }),
            !r ==> *final(event) == *old(event),
    {
        let a = chars_of(event.soc_incident.as_str());
        let b = chars_of(incident.id.as_str());
        if !chars_eq(a.as_slice(), b.as_slice()) {
            return false;
        }
        event.soc_status = status_name(incident.status);
        let hint = match incident.status {
            IncidentStatus::Approved => "contain_device",
            IncidentStatus::Rejected => "no_action",
            IncidentStatus::Monitoring => "continue_monitoring",
            IncidentStatus::FalsePositive => "allow_device",
            IncidentStatus::PendingSocReview => "log_and_alert",
        };
        event.action_hint = string_of(chars_of(hint).as_slice());
        true
    }
}

/// The response an exported event calls for follows its incident's SOC
/// status: containing the device once approved, nothing once rejected,
/// continued monitoring while monitored, allowing the device once marked a
/// false positive, and logging while pending review. Different statuses
/// call for different responses.
pub proof fn responses_follow_status(s: IncidentStatus, u: IncidentStatus)
    ensures
        s == IncidentStatus::Approved ==> hint_for_status(s) == "contain_device"@,
        s == IncidentStatus::Rejected ==> hint_for_status(s) == "no_action"@,
        s == IncidentStatus::Monitoring ==> hint_for_status(s) == "continue_monitoring"@,
        s == IncidentStatus::FalsePositive ==> hint_for_status(s) == "allow_device"@,
        s == IncidentStatus::PendingSocReview ==> hint_for_status(s) == "log_and_alert"@,
        s != u ==> hint_for_status(s) != hint_for_status(u),
{
    reveal_strlit("contain_device");
    assert("contain_device"@.len() == 14);
    reveal_strlit("no_action");
    assert("no_action"@.len() == 9);
    reveal_strlit("continue_monitoring");
    assert("continue_monitoring"@.len() == 19);
    reveal_strlit("allow_device");
    assert("allow_device"@.len() == 12);
    reveal_strlit("log_and_alert");
    assert("log_and_alert"@.len() == 13);
}

} // verus!
