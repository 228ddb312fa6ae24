//! The text of the state file read by status widgets: three `KEY=value`
//! lines. Writing and removing the file are done by the daemon.
use vstd::prelude::*;

use vstd::string::StringExecFns;

use crate::text::{decimal_text, push_decimal};
use crate::types::TunnelState;

verus! {

/// The name of a state in the state file.
pub open spec fn state_name(s: TunnelState) -> Seq<char> {
    match s {
        TunnelState::Inactive => "inactive"@,
        TunnelState::Monitoring => "monitoring"@,
        TunnelState::Activating => "activating"@,
        TunnelState::Active => "connected"@,
        TunnelState::Deactivating => "deactivating"@,
    }
}

/// The state file's text.
pub open spec fn state_file_text(s: TunnelState, ssid: Seq<char>, timestamp: u64) -> Seq<char> {
    "STATE="@ + state_name(s) + "\nSSID="@ + ssid + "\nTIMESTAMP="@ + decimal_text(
        timestamp as nat,
    ) + "\n"@
}

/// The name of a state in the state file.
pub fn state_label(s: TunnelState) -> (r: &'static str)
    ensures
        r@ == state_name(s),
{
    match s {
        TunnelState::Inactive => "inactive",
        TunnelState::Monitoring => "monitoring",
        TunnelState::Activating => "activating",
        TunnelState::Active => "connected",
        TunnelState::Deactivating => "deactivating",
    }
}

/// The state file's text: `STATE=<name>`, `SSID=<ssid or empty>` and
/// `TIMESTAMP=<unix seconds>`, each on its own line.
pub fn state_file_content(state: TunnelState, ssid: Option<&str>, timestamp: u64) -> (r: String)
    ensures
        r@ == state_file_text(
            state,
            match ssid {
                Some(s) => s@,
                None => Seq::empty(),
            },
            timestamp,
        ),
{
    let mut out = "STATE=".to_owned();
    out.append(state_label(state));
    out.append("\nSSID=");
    match ssid {
        Some(s) => out.append(s),
        None => {},
    }
    out.append("\nTIMESTAMP=");
    push_decimal(&mut out, timestamp);
    out.append("\n");
    let ghost t = match ssid {
        Some(s) => s@,
        None => Seq::<char>::empty(),
    };
    assert(out@ =~= state_file_text(state, t, timestamp));
    out
}

} // verus!
