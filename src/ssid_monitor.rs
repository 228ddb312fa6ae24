//! The Wi-Fi admission rule and the edge detector that turns successive
//! SSID lookups into connect and disconnect events. The lookups themselves
//! go to the network manager and are made by the daemon.
use vstd::prelude::*;

use crate::text::{contains_str, contains_text};

verus! {

/// What the monitor reports.
#[derive(Debug, Clone)]
pub enum NetworkEvent {
    /// Now on an approved network, with its SSID (empty when unknown).
    ConnectedToTarget(String),
    /// No longer on an approved network.
    Disconnected,
}

/// The admission rule: the SSID is not excluded, and the target list is
/// empty or holds it. The exclude list wins ties.
pub open spec fn admits(target: Seq<String>, exclude: Seq<String>, ssid: Seq<char>) -> bool {
    !contains_text(exclude, ssid) && (target.len() == 0 || contains_text(target, ssid))
}

/// Admission of the current network: none when not on Wi-Fi.
pub open spec fn admits_current(
    target: Seq<String>,
    exclude: Seq<String>,
    current: Option<String>,
) -> bool {
    match current {
        Some(s) => admits(target, exclude, s@),
        None => false,
    }
}

/// The approved and excluded SSIDs, and whether the last successful lookup
/// found an approved network.
pub struct SsidMonitor {
    target_ssids: Vec<String>,
    exclude_ssids: Vec<String>,
    was_connected: bool,
}

impl SsidMonitor {
    /// The approved SSIDs.
    pub closed spec fn spec_target(&self) -> Seq<String> {
        self.target_ssids@
    }

    /// The excluded SSIDs.
    pub closed spec fn spec_exclude(&self) -> Seq<String> {
        self.exclude_ssids@
    }

    /// Whether the last successful lookup found an approved network.
    pub closed spec fn spec_was_connected(&self) -> bool {
        self.was_connected
    }

    /// A monitor with the given lists; an empty target list approves every
    /// network that is not excluded. It starts as not connected.
    pub fn new(target_ssids: Vec<String>, exclude_ssids: Vec<String>) -> (r: Self)
        ensures
            r.spec_target() == target_ssids@,
            r.spec_exclude() == exclude_ssids@,
            !r.spec_was_connected(),
    {
        SsidMonitor { target_ssids, exclude_ssids, was_connected: false }
    }

    /// Whether an SSID is approved.
    pub fn admits(&self, ssid: &String) -> (r: bool)
        ensures
            r == admits(self.spec_target(), self.spec_exclude(), ssid@),
    {
        if contains_str(self.exclude_ssids.as_slice(), ssid) {
            return false;
        }
        self.target_ssids.len() == 0 || contains_str(self.target_ssids.as_slice(), ssid)
    }

    /// Whether the current network, as looked up, is approved; not being on
    /// Wi-Fi is not.
    pub fn is_connected_to_target(&self, current: &Option<String>) -> (r: bool)
        ensures
            r == admits_current(self.spec_target(), self.spec_exclude(), *current),
    {
        match current {
            Some(ssid) => self.admits(ssid),
            None => false,
        }
    }

    /// Takes the first lookup as the starting point, without an event;
    /// returns whether it found an approved network.
    pub fn prime(&mut self, current: &Option<String>) -> (r: bool)
        ensures
            r == admits_current(old(self).spec_target(), old(self).spec_exclude(), *current),
            final(self).spec_was_connected() == r,
            final(self).spec_target() == old(self).spec_target(),
            final(self).spec_exclude() == old(self).spec_exclude(),
    {
        let c = self.is_connected_to_target(current);
        self.was_connected = c;
        c
    }

    /// Takes the result of a lookup after a change signal. A failed lookup
    /// (`Err`) changes nothing. Otherwise an event comes only on an edge:
    /// `ConnectedToTarget` with the SSID when an approved network appears,
    /// `Disconnected` when it goes.
    pub fn observe(&mut self, lookup: Result<Option<String>, ()>) -> (r: Option<NetworkEvent>)
        ensures
            final(self).spec_target() == old(self).spec_target(),
            final(self).spec_exclude() == old(self).spec_exclude(),
            lookup is Err ==> r is None && final(self).spec_was_connected() == old(
                self,
            ).spec_was_connected(),
            lookup matches Ok(current) ==> ({
                let now = admits_current(old(self).spec_target(), old(self).spec_exclude(), current);
                &&& final(self).spec_was_connected() == now
                &&& (now && !old(self).spec_was_connected()) ==> (r matches Some(
                    NetworkEvent::ConnectedToTarget(s),
                ) && current == Some(s))
                &&& (!now && old(self).spec_was_connected()) ==> (r matches Some(
                    NetworkEvent::Disconnected,
                ))
                &&& now == old(self).spec_was_connected() ==> r is None
            }),
    {
        let current = match lookup {
            Ok(c) => c,
            Err(()) => return None,
        };
        let now = self.is_connected_to_target(&current);
        let was = self.was_connected;
        self.was_connected = now;
        if now && !was {
            match current {
                Some(ssid) => Some(NetworkEvent::ConnectedToTarget(ssid)),
                None => None,
            }
        } else if !now && was {
            Some(NetworkEvent::Disconnected)
        } else {
            None
        }
    }
}

} // verus!
