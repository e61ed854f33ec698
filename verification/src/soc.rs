//! SOC incident handling: incidents are created from alerts, wait for SOC
//! review, and are approved, rejected, monitored or marked false positive.
//! Creating an incident never contains a device; only an approved incident
//! can reach prevention.

use vstd::prelude::*;

use crate::models::{clone_opt_string, IncidentStatus, SecurityAlert, SecurityIncident};
use crate::numtext::{padded_dec_chars, padded_dec_text};
use crate::text::{
    append_chars, chars_eq, chars_of, lower_case, split_words, string_of, to_lower, trim, trim_chars,
    words,
};
use crate::textmap::TextMap;
use crate::time::{utc_now, Timestamp};

verus! {

/// The identifier of incident number `n`: `INC-` and the number with at
/// least four digits.
pub open spec fn incident_id(n: nat) -> Seq<char> {
    "INC-"@ + padded_dec_text(n, 4)
}

/// The status an approval leads to, or `None` when it is refused: pending
/// and monitored incidents become approved, approved ones stay approved.
pub open spec fn approved_from(s: IncidentStatus) -> Option<IncidentStatus> {
    match s {
        IncidentStatus::PendingSocReview | IncidentStatus::Monitoring | IncidentStatus::Approved => Some(
            IncidentStatus::Approved,
        ),
        _ => None,
    }
}

/// The status a rejection leads to: refused for approved incidents.
pub open spec fn rejected_from(s: IncidentStatus) -> Option<IncidentStatus> {
    if s == IncidentStatus::Approved {
        None
    } else {
        Some(IncidentStatus::Rejected)
    }
}

/// The status monitoring leads to: only pending and monitored incidents
/// can be monitored.
pub open spec fn monitored_from(s: IncidentStatus) -> Option<IncidentStatus> {
    match s {
        IncidentStatus::PendingSocReview | IncidentStatus::Monitoring => Some(
            IncidentStatus::Monitoring,
        ),
        _ => None,
    }
}

/// The status marking a false positive leads to: refused for approved
/// incidents.
pub open spec fn false_positive_from(s: IncidentStatus) -> Option<IncidentStatus> {
    if s == IncidentStatus::Approved {
        None
    } else {
        Some(IncidentStatus::FalsePositive)
    }
}

/// `inc` is incident `old` with status `s`.
pub open spec fn with_status(old: SecurityIncident, s: IncidentStatus) -> SecurityIncident {
    SecurityIncident { status: s, ..old }
}

/// The outcome of a SOC decision on the incident `id` of `before`, given
/// the transition `step`: when the incident exists and the step allows it,
/// the incident takes the new status and is returned; otherwise nothing
/// changes and `None` is returned.
pub open spec fn decided(
    before: Map<Seq<char>, SecurityIncident>,
    after: Map<Seq<char>, SecurityIncident>,
    id: Seq<char>,
    step: spec_fn(IncidentStatus) -> Option<IncidentStatus>,
    r: Option<SecurityIncident>,
) -> bool {
    if before.contains_key(id) && step(before[id].status) is Some {
        let inc = with_status(before[id], step(before[id].status)->0);
        &&& r == Some(inc)
        &&& after == before.insert(id, inc)
    } else {
        &&& r is None
        &&& after == before
    }
}

/// The numbers incidents are given. One counter serves the whole process:
/// every incident manager draws its incident numbers from it, so the
/// identifiers count up `INC-0001`, `INC-0002`, ... and never repeat
/// (short of wrapping around).
pub struct IncidentCounter {
    next: usize,
}

impl IncidentCounter {
    /// The number the next incident gets.
    pub closed spec fn next(&self) -> nat {
        self.next as nat
    }

    /// A counter whose first incident gets number 1.
    pub fn new() -> (r: Self)
        ensures
            r.next() == 1,
    {
        IncidentCounter { next: 1 }
    }

    /// Hands out the next number and counts on (wrapping as an atomic
    /// counter does).
    fn take(&mut self) -> (n: usize)
        ensures
            n == old(self).next(),
            final(self).next() == next_after(old(self).next()),
    {
        let n = self.next;
        self.next = if n == usize::MAX {
            0
        } else {
            n + 1
        };
        n
    }
}

/// The counter value after `n` was handed out.
pub open spec fn next_after(n: nat) -> nat {
    if n == usize::MAX {
        0
    } else {
        n + 1
    }
}

/// The incidents of the SOC, by identifier.
pub struct IncidentManager {
    incidents: TextMap<SecurityIncident>,
}

impl View for IncidentManager {
    type V = Map<Seq<char>, SecurityIncident>;

    closed spec fn view(&self) -> Map<Seq<char>, SecurityIncident> {
        self.incidents@
    }
}

impl IncidentManager {
    /// The incidents are held consistently.
    pub closed spec fn wf(&self) -> bool {
        self.incidents.wf()
    }

    /// No incidents.
    pub fn new() -> (r: Self)
        ensures
            r.wf(),
            r@ == Map::<Seq<char>, SecurityIncident>::empty(),
    {
        IncidentManager { incidents: TextMap::new() }
    }

    /// Creates and stores a pending incident from an alert, created at
    /// `now`, numbered by the process's incident counter.
    pub fn create_incident_at(&mut self, counter: &mut IncidentCounter, alert: &SecurityAlert, now: Timestamp) -> (r: SecurityIncident)
        requires
            old(self).wf(),
        ensures
            final(self).wf(),
            r.id@ == incident_id(old(counter).next()),
            final(counter).next() == next_after(old(counter).next()),
            r.created_at == now,
            r.threat_name == alert.name,
            r.severity == alert.severity,
            r.device_mac == alert.mac,
            r.details == alert.details,
            r.status == IncidentStatus::PendingSocReview,
            final(self)@ == old(self)@.insert(r.id@, r),
    {
        let number = counter.take();
        let mut id = chars_of("INC-");
        append_chars(&mut id, padded_dec_chars(number as u64, 4).as_slice());
        let incident = SecurityIncident {
            id: string_of(id.as_slice()),
            created_at: now,
            threat_name: alert.name.clone(),
            severity: alert.severity.clone(),
            device_mac: clone_opt_string(&alert.mac),
            details: alert.details.clone(),
            status: IncidentStatus::PendingSocReview,
        };
        self.incidents.insert(id, incident.clone());
        incident
    }

    /// Creates and stores a pending incident from an alert, created now,
    /// numbered by the process's incident counter.
    pub fn create_incident(&mut self, counter: &mut IncidentCounter, alert: &SecurityAlert) -> (r: SecurityIncident)
        requires
            old(self).wf(),
        ensures
            final(self).wf(),
            r.id@ == incident_id(old(counter).next()),
            final(counter).next() == next_after(old(counter).next()),
            r.threat_name == alert.name,
            r.severity == alert.severity,
            r.device_mac == alert.mac,
            r.details == alert.details,
            r.status == IncidentStatus::PendingSocReview,
            final(self)@ == old(self)@.insert(r.id@, r),
    {
        let now = utc_now();
        self.create_incident_at(counter, alert, now)
    }

    /// The incident with identifier `id`, unchanged.
    pub fn get_incident(&self, id: &str) -> (r: Option<&SecurityIncident>)
        requires
            self.wf(),
        ensures
            match r {
                Some(inc) => self@.contains_key(id@) && *inc == self@[id@],
                None => !self@.contains_key(id@),
            },
    {
        let key = chars_of(id);
        self.incidents.get(key.as_slice())
    }

    /// Applies a status transition to incident `id`.
    fn transition(&mut self, id: &str, action: u8) -> (r: Option<SecurityIncident>)
        requires
            old(self).wf(),
            action < 4,
        ensures
            final(self).wf(),
            decided(
                old(self)@,
                final(self)@,
                id@,
                if action == 0 {
                    |s: IncidentStatus| approved_from(s)
                } else if action == 1 {
                    |s: IncidentStatus| rejected_from(s)
                } else if action == 2 {
                    |s: IncidentStatus| monitored_from(s)
                } else {
                    |s: IncidentStatus| false_positive_from(s)
                },
                r,
            ),
    {
        let key = chars_of(id);
        match self.incidents.find(key.as_slice()) {
            Some(i) => {
                let current = self.incidents.value_at(i).clone();
                let next: Option<IncidentStatus> = match (action, current.status) {
                    (0, IncidentStatus::PendingSocReview) | (0, IncidentStatus::Monitoring) | (
                        0,
                        IncidentStatus::Approved,
                    ) => Some(IncidentStatus::Approved),
                    (0, _) => None,
                    (1, IncidentStatus::Approved) => None,
                    (1, _) => Some(IncidentStatus::Rejected),
                    (2, IncidentStatus::PendingSocReview) | (2, IncidentStatus::Monitoring) => Some(
                        IncidentStatus::Monitoring,
                    ),
                    (2, _) => None,
                    (_, IncidentStatus::Approved) => None,
                    (_, _) => Some(IncidentStatus::FalsePositive),
                };
                match next {
                    Some(s) => {
                        let mut updated = current;
                        updated.status = s;
                        self.incidents.set_value_at(i, updated.clone());
                        Some(updated)
                    },
                    None => None,
                }
            },
            None => None,
        }
    }

    /// SOC approval: pending and monitored incidents become approved and an
    /// approved one stays approved; rejected and false-positive incidents
    /// cannot be approved, and an unknown identifier gives `None`.
    pub fn approve(&mut self, id: &str) -> (r: Option<SecurityIncident>)
        requires
            old(self).wf(),
        ensures
            final(self).wf(),
            decided(old(self)@, final(self)@, id@, |s: IncidentStatus| approved_from(s), r),
    {
        self.transition(id, 0)
    }

    /// SOC rejection: any incident but an approved one becomes rejected.
    pub fn reject(&mut self, id: &str) -> (r: Option<SecurityIncident>)
        requires
            old(self).wf(),
        ensures
            final(self).wf(),
            decided(old(self)@, final(self)@, id@, |s: IncidentStatus| rejected_from(s), r),
    {
        self.transition(id, 1)
    }

    /// Continued monitoring: pending and monitored incidents are (still)
    /// monitored; others cannot be.
    pub fn monitor(&mut self, id: &str) -> (r: Option<SecurityIncident>)
        requires
            old(self).wf(),
        ensures
            final(self).wf(),
            decided(old(self)@, final(self)@, id@, |s: IncidentStatus| monitored_from(s), r),
    {
        self.transition(id, 2)
    }

    /// Marking a false positive: any incident but an approved one becomes a
    /// false positive.
    pub fn false_positive(&mut self, id: &str) -> (r: Option<SecurityIncident>)
        requires
            old(self).wf(),
        ensures
            final(self).wf(),
            decided(old(self)@, final(self)@, id@, |s: IncidentStatus| false_positive_from(s), r),
    {
        self.transition(id, 3)
    }

    /// Whether the SOC has approved the incident.
    pub fn is_approved(&self, incident: &SecurityIncident) -> (r: bool)
        ensures
            r == (incident.status == IncidentStatus::Approved),
    {
        incident.status == IncidentStatus::Approved
    }
}

/// Approval is final: once an incident is approved, no SOC decision
/// (approve, reject, monitor, false positive) changes its status; all but
/// approval are refused and change nothing.
pub proof fn approval_is_final(
    before: Map<Seq<char>, SecurityIncident>,
    after: Map<Seq<char>, SecurityIncident>,
    id: Seq<char>,
    r: Option<SecurityIncident>,
)
    requires
        before.contains_key(id),
        before[id].status == IncidentStatus::Approved,
    ensures
        decided(before, after, id, |s: IncidentStatus| approved_from(s), r) ==> after[id].status
            == IncidentStatus::Approved,
        decided(before, after, id, |s: IncidentStatus| rejected_from(s), r) ==> after == before
            && r is None,
        decided(before, after, id, |s: IncidentStatus| monitored_from(s), r) ==> after == before
            && r is None,
        decided(before, after, id, |s: IncidentStatus| false_positive_from(s), r) ==> after
            == before && r is None,
{
}

/// Rejected incidents and false positives can never be approved: approval
/// is refused and nothing changes.
pub proof fn dismissed_incidents_stay_unapproved(
    before: Map<Seq<char>, SecurityIncident>,
    after: Map<Seq<char>, SecurityIncident>,
    id: Seq<char>,
    r: Option<SecurityIncident>,
)
    requires
        before.contains_key(id),
        before[id].status == IncidentStatus::Rejected || before[id].status
            == IncidentStatus::FalsePositive,
        decided(before, after, id, |s: IncidentStatus| approved_from(s), r),
    ensures
        after == before,
        r is None,
{
}

/// A SOC decision touches only the incident it names, and only its status.
pub proof fn decisions_touch_one_status(
    before: Map<Seq<char>, SecurityIncident>,
    after: Map<Seq<char>, SecurityIncident>,
    id: Seq<char>,
    step: spec_fn(IncidentStatus) -> Option<IncidentStatus>,
    r: Option<SecurityIncident>,
)
    requires
        decided(before, after, id, step, r),
    ensures
        after.dom() == before.dom(),
        forall|k: Seq<char>| before.contains_key(k) && k != id ==> after[k] == before[k],
        before.contains_key(id) ==> after[id] == with_status(before[id], after[id].status),
{
    if before.contains_key(id) && step(before[id].status) is Some {
        assert(after.dom() =~= before.dom());
    }
}

/// A SOC decision on an incident.
pub enum Decision {
    Approve,
    Reject,
    Monitor,
    FalsePositive,
}

/// The status a decision leads to from status `s`, or `None` when the
/// decision is refused.
pub open spec fn next_status(d: Decision, s: IncidentStatus) -> Option<IncidentStatus> {
    match d {
        Decision::Approve => approved_from(s),
        Decision::Reject => rejected_from(s),
        Decision::Monitor => monitored_from(s),
        Decision::FalsePositive => false_positive_from(s),
    }
}

/// The incidents after decision `d` on incident `id`.
pub open spec fn apply_decision(m: Map<Seq<char>, SecurityIncident>, id: Seq<char>, d: Decision) -> Map<Seq<char>, SecurityIncident> {
    if m.contains_key(id) && next_status(d, m[id].status) is Some {
        m.insert(id, with_status(m[id], next_status(d, m[id].status)->0))
    } else {
        m
    }
}

/// The incidents after the decisions `ds`, in order.
pub open spec fn apply_decisions(m: Map<Seq<char>, SecurityIncident>, ds: Seq<(Seq<char>, Decision)>) -> Map<Seq<char>, SecurityIncident>
    decreases ds.len(),
{
    if ds.len() == 0 {
        m
    } else {
        apply_decision(apply_decisions(m, ds.drop_last()), ds.last().0, ds.last().1)
    }
}

/// What `approve`, `reject`, `monitor` and `false_positive` do to the
/// incidents is one decision step.
pub proof fn decisions_are_steps(
    before: Map<Seq<char>, SecurityIncident>,
    after: Map<Seq<char>, SecurityIncident>,
    id: Seq<char>,
    r: Option<SecurityIncident>,
)
    ensures
        decided(before, after, id, |s: IncidentStatus| approved_from(s), r) ==> after == apply_decision(before, id, Decision::Approve),
        decided(before, after, id, |s: IncidentStatus| rejected_from(s), r) ==> after == apply_decision(before, id, Decision::Reject),
        decided(before, after, id, |s: IncidentStatus| monitored_from(s), r) ==> after == apply_decision(before, id, Decision::Monitor),
        decided(before, after, id, |s: IncidentStatus| false_positive_from(s), r) ==> after == apply_decision(before, id, Decision::FalsePositive),
{
}

/// The incident lifecycle over any sequence of SOC decisions: an incident
/// stays known and only its status changes; once approved it stays
/// approved; once rejected or marked false positive it is never approved,
/// monitored or pending again; and approval is only ever reached by an
/// approve decision from a pending, monitored or approved incident.
pub proof fn incident_lifecycle(m: Map<Seq<char>, SecurityIncident>, ds: Seq<(Seq<char>, Decision)>, id: Seq<char>)
    requires
        m.contains_key(id),
    ensures
        apply_decisions(m, ds).contains_key(id),
        apply_decisions(m, ds)[id] == with_status(m[id], apply_decisions(m, ds)[id].status),
        m[id].status == IncidentStatus::Approved ==> apply_decisions(m, ds)[id].status == IncidentStatus::Approved,
        m[id].status == IncidentStatus::Rejected || m[id].status == IncidentStatus::FalsePositive ==> (
        apply_decisions(m, ds)[id].status == IncidentStatus::Rejected || apply_decisions(m, ds)[id].status
            == IncidentStatus::FalsePositive),
        forall|d: Decision, s: IncidentStatus| #[trigger] next_status(d, s) == Some(IncidentStatus::Approved) ==> d
            == Decision::Approve && s != IncidentStatus::Rejected && s != IncidentStatus::FalsePositive,
    decreases ds.len(),
{
    if ds.len() > 0 {
        incident_lifecycle(m, ds.drop_last(), id);
    }
}

/// What each SOC decision does to each status: approval takes pending and
/// monitored incidents (and keeps approved ones) to approved and is
/// refused for rejected and false-positive ones; rejection and marking a
/// false positive apply to every incident but an approved one; monitoring
/// applies to pending and monitored incidents only.
pub proof fn decision_outcomes()
    ensures
        next_status(Decision::Approve, IncidentStatus::PendingSocReview) == Some(IncidentStatus::Approved),
        next_status(Decision::Approve, IncidentStatus::Monitoring) == Some(IncidentStatus::Approved),
        next_status(Decision::Approve, IncidentStatus::Approved) == Some(IncidentStatus::Approved),
        next_status(Decision::Approve, IncidentStatus::Rejected) is None,
        next_status(Decision::Approve, IncidentStatus::FalsePositive) is None,
        next_status(Decision::Reject, IncidentStatus::PendingSocReview) == Some(IncidentStatus::Rejected),
        next_status(Decision::Reject, IncidentStatus::Monitoring) == Some(IncidentStatus::Rejected),
        next_status(Decision::Reject, IncidentStatus::Approved) is None,
        next_status(Decision::Reject, IncidentStatus::Rejected) == Some(IncidentStatus::Rejected),
        next_status(Decision::Reject, IncidentStatus::FalsePositive) == Some(IncidentStatus::Rejected),
        next_status(Decision::Monitor, IncidentStatus::PendingSocReview) == Some(IncidentStatus::Monitoring),
        next_status(Decision::Monitor, IncidentStatus::Monitoring) == Some(IncidentStatus::Monitoring),
        next_status(Decision::Monitor, IncidentStatus::Approved) is None,
        next_status(Decision::Monitor, IncidentStatus::Rejected) is None,
        next_status(Decision::Monitor, IncidentStatus::FalsePositive) is None,
        next_status(Decision::FalsePositive, IncidentStatus::PendingSocReview) == Some(IncidentStatus::FalsePositive),
        next_status(Decision::FalsePositive, IncidentStatus::Monitoring) == Some(IncidentStatus::FalsePositive),
        next_status(Decision::FalsePositive, IncidentStatus::Approved) is None,
        next_status(Decision::FalsePositive, IncidentStatus::Rejected) == Some(IncidentStatus::FalsePositive),
        next_status(Decision::FalsePositive, IncidentStatus::FalsePositive) == Some(IncidentStatus::FalsePositive),
{
}

/// Approving a known incident that is pending SOC review or monitored
/// succeeds: the incident is returned approved and stored approved, with
/// nothing else changed.
pub proof fn pending_incidents_can_be_approved(
    before: Map<Seq<char>, SecurityIncident>,
    after: Map<Seq<char>, SecurityIncident>,
    id: Seq<char>,
    r: Option<SecurityIncident>,
)
    requires
        before.contains_key(id),
        before[id].status == IncidentStatus::PendingSocReview || before[id].status == IncidentStatus::Monitoring,
        decided(before, after, id, |s: IncidentStatus| approved_from(s), r),
    ensures
        r matches Some(inc) && inc.status == IncidentStatus::Approved && inc == with_status(before[id], IncidentStatus::Approved),
        after == before.insert(id, with_status(before[id], IncidentStatus::Approved)),
{
}

/// A SOC command read from the command file: an action and an incident
/// identifier, such as `approve INC-0001`.
#[derive(Debug)]
pub enum SocCommand {
    Approve(String),
    Reject(String),
    Monitor(String),
    FalsePositive(String),
    /// Two words whose first, in lower case, names no action; it is held in
    /// lower case.
    Unknown(String),
    /// Not blank, and not two words.
    Malformed,
    /// Only white space: there is no command.
    Empty,
}

/// `r` is what the command text `text` says: the text is trimmed and split
/// at white space; two words make a command whose action is the first word
/// in lower case (`approve`, `reject`, `monitor` or `false-positive`) and
/// whose incident is the second.
pub open spec fn reads_as(text: Seq<char>, r: SocCommand) -> bool {
    let t = trim(text);
    let w = words(t);
    if t.len() == 0 {
        r is Empty
    } else if w.len() != 2 {
        r is Malformed
    } else {
        let action = lower_case(w[0]);
        if action == "approve"@ {
            r matches SocCommand::Approve(id) && id@ == w[1]
        } else if action == "reject"@ {
            r matches SocCommand::Reject(id) && id@ == w[1]
        } else if action == "monitor"@ {
            r matches SocCommand::Monitor(id) && id@ == w[1]
        } else if action == "false-positive"@ {
            r matches SocCommand::FalsePositive(id) && id@ == w[1]
        } else {
            r matches SocCommand::Unknown(a) && a@ == action
        }
    }
}

/// Reads a SOC command from the text of the command file.
pub fn parse_soc_command(text: &str) -> (r: SocCommand)
    ensures
        reads_as(text@, r),
{
    let t = trim_chars(chars_of(text).as_slice());
    if t.len() == 0 {
        return SocCommand::Empty;
    }
    let parts = split_words(t.as_slice());
    if parts.len() != 2 {
        return SocCommand::Malformed;
    }
    proof {
        assert(parts@[0]@ == words(t@)[0]);
        assert(parts@[1]@ == words(t@)[1]);
    }
    let action = to_lower(parts[0].as_slice());
    let id = string_of(parts[1].as_slice());
    if chars_eq(action.as_slice(), chars_of("approve").as_slice()) {
        SocCommand::Approve(id)
    } else if chars_eq(action.as_slice(), chars_of("reject").as_slice()) {
        SocCommand::Reject(id)
    } else if chars_eq(action.as_slice(), chars_of("monitor").as_slice()) {
        SocCommand::Monitor(id)
    } else if chars_eq(action.as_slice(), chars_of("false-positive").as_slice()) {
        SocCommand::FalsePositive(id)
    } else {
        SocCommand::Unknown(string_of(action.as_slice()))
    }
}

} // verus!
