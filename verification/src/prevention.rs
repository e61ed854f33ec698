//! The containment decisions for SOC-approved incidents. The commands
//! themselves (disconnect, then block) are run by the caller, which feeds
//! each command's outcome back.

use vstd::prelude::*;

use crate::models::{IncidentStatus, SecurityIncident};
use crate::text::{chars_eq, chars_of, opt_text, string_of, to_upper, upper_case};

verus! {

/// The next thing containment needs, or its result.
#[derive(Debug)]
pub enum ContainmentStep {
    /// Run `bluetoothctl disconnect` for the address.
    Disconnect(String),
    /// Run `bluetoothctl block` for the address.
    Block(String),
    /// Containment is over; `true` when the device was contained.
    Done(bool),
}

/// Threats for which containment is allowed.
pub open spec fn containment_allowed(threat: Seq<char>) -> bool {
    ||| threat == "Suspicious Connection Cycling"@
    ||| threat == "Reconnection Flood"@
    ||| threat == "Authentication Brute Force"@
    ||| threat == "Encryption Downgrade"@
    ||| threat == "Repeated Connection Failure"@
}

/// Active prevention, restricted to one authorized test device.
pub struct PreventionEngine {
    enabled: bool,
    authorized_test_mac: String,
}

impl PreventionEngine {
    /// Whether active prevention is switched on.
    pub closed spec fn is_enabled(&self) -> bool {
        self.enabled
    }

    /// The authorized device address, in upper case.
    pub closed spec fn authorized_mac(&self) -> Seq<char> {
        self.authorized_test_mac@
    }

    /// The device an incident would contain: its address in upper case,
    /// when prevention is on, the incident is approved, its address is the
    /// authorized one and its threat allows containment.
    pub open spec fn target(&self, incident: SecurityIncident) -> Option<Seq<char>> {
        match opt_text(incident.device_mac) {
            Some(m) => if self.is_enabled() && incident.status == IncidentStatus::Approved
                && upper_case(m) == self.authorized_mac() && containment_allowed(
                incident.threat_name@,
            ) {
                Some(upper_case(m))
            } else {
                None
            },
            None => None,
        }
    }

    /// An engine, switched on or off, for the device `authorized_test_mac` (kept in upper case).
    pub fn new(enabled: bool, authorized_test_mac: &str) -> (r: Self)
        ensures
            r.is_enabled() == enabled,
            r.authorized_mac() == upper_case(authorized_test_mac@),
    {
        let m = to_upper(chars_of(authorized_test_mac).as_slice());
        PreventionEngine { enabled, authorized_test_mac: string_of(m.as_slice()) }
    }

    /// The first step of containment for an incident: disconnecting its
    /// device when it is the target (see `target`), else done without
    /// containment.
    pub fn respond(&self, incident: &SecurityIncident) -> (r: ContainmentStep)
        ensures
            match self.target(*incident) {
                Some(m) => r matches ContainmentStep::Disconnect(a) && a@ == m,
                None => r matches ContainmentStep::Done(false),
            },
    {
        if !self.enabled {
            return ContainmentStep::Done(false);
        }
        if incident.status != IncidentStatus::Approved {
            return ContainmentStep::Done(false);
        }
        let mac = match &incident.device_mac {
            Some(m) => m,
            None => {
                return ContainmentStep::Done(false);
            },
        };
        let normalized = to_upper(chars_of(mac.as_str()).as_slice());
        let authorized = chars_of(self.authorized_test_mac.as_str());
        if !chars_eq(normalized.as_slice(), authorized.as_slice()) {
            return ContainmentStep::Done(false);
        }
        let threat = chars_of(incident.threat_name.as_str());
        let allowed = chars_eq(threat.as_slice(), chars_of("Suspicious Connection Cycling").as_slice())
            || chars_eq(threat.as_slice(), chars_of("Reconnection Flood").as_slice())
            || chars_eq(threat.as_slice(), chars_of("Authentication Brute Force").as_slice())
            || chars_eq(threat.as_slice(), chars_of("Encryption Downgrade").as_slice())
            || chars_eq(threat.as_slice(), chars_of("Repeated Connection Failure").as_slice());
        if !allowed {
            return ContainmentStep::Done(false);
        }
        ContainmentStep::Disconnect(string_of(normalized.as_slice()))
    }

    /// The step after a command ran: blocking follows only a successful
    /// disconnect, and the device is contained when blocking succeeds.
    pub fn next_step(&self, step: ContainmentStep, command_succeeded: bool) -> (r: ContainmentStep)
        ensures
            match step {
                ContainmentStep::Disconnect(m) => if command_succeeded {
                    r matches ContainmentStep::Block(a) && a@ == m@
                } else {
                    r matches ContainmentStep::Done(false)
                },
                ContainmentStep::Block(_) => r matches ContainmentStep::Done(b) && b == command_succeeded,
                ContainmentStep::Done(b) => r matches ContainmentStep::Done(c) && c == b,
            },
    {
        match step {
            ContainmentStep::Disconnect(m) => {
                if command_succeeded {
                    ContainmentStep::Block(m)
                } else {
                    ContainmentStep::Done(false)
                }
            },
            ContainmentStep::Block(_) => ContainmentStep::Done(command_succeeded),
            ContainmentStep::Done(b) => ContainmentStep::Done(b),
        }
    }
}

/// Containment is only ever started for an incident the SOC approved,
/// with prevention switched on, for the authorized device and a threat
/// whose policy allows containment.
pub proof fn only_approved_incidents_are_contained(engine: PreventionEngine, incident: SecurityIncident)
    requires
        engine.target(incident) is Some,
    ensures
        incident.status == IncidentStatus::Approved,
        engine.is_enabled(),
        containment_allowed(incident.threat_name@),
        incident.device_mac is Some,
        upper_case(incident.device_mac->0@) == engine.authorized_mac(),
{
}

/// Creating an incident never contains a device: an incident pending SOC
/// review, monitored, rejected or marked false positive has no target.
pub proof fn unapproved_incidents_are_never_contained(engine: PreventionEngine, incident: SecurityIncident)
    requires
        incident.status != IncidentStatus::Approved,
    ensures
        engine.target(incident) is None,
{
}

/// The containment policy is exactly the five threats of connection
/// cycling, reconnection floods, authentication brute force, encryption
/// downgrades and repeated connection failures: an approved incident of
/// one of them on the authorized device, with prevention switched on, is
/// contained (its device in upper case is disconnected first), and no
/// incident of another threat ever is.
pub proof fn policy_threats_are_contained(engine: PreventionEngine, incident: SecurityIncident)
    ensures
        ({
            let t = incident.threat_name@;
            let policy = t == "Suspicious Connection Cycling"@ || t == "Reconnection Flood"@ || t
                == "Authentication Brute Force"@ || t == "Encryption Downgrade"@ || t
                == "Repeated Connection Failure"@;
            &&& (engine.is_enabled() && incident.status == IncidentStatus::Approved && policy
                && incident.device_mac is Some && upper_case(incident.device_mac->0@) == engine.authorized_mac())
                ==> engine.target(incident) == Some(upper_case(incident.device_mac->0@))
            &&& engine.target(incident) is Some ==> policy
        }),
{
}

} // verus!
