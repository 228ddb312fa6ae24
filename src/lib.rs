//! On-demand WireGuard activation: the verified core of a daemon that
//! keeps a tunnel down until the host is on an approved Wi-Fi network and
//! traffic to a target subnet is seen, and takes it down again after an
//! idle period.
//!
//! - [`config`]: CIDR parsing and matching, configuration rules
//! - [`classifier`]: the egress filter's per-frame decision and its subnet map
//! - [`types`]: the kernel traffic record, tunnel states, configuration
//! - [`state`]: the tunnel lifecycle state machine and its laws
//! - [`supervisor`]: the policy that drives the state machine
//! - [`ssid_monitor`]: the Wi-Fi admission rule and edge detection
//! - [`wg_controller`]: tunnel names, commands, counters and idle tracking
//! - [`route_manager`]: monitoring-route bookkeeping and gateway lookup
//! - [`interface_probe`]: choosing the watched interface and its address
//! - [`state_file`]: the state file's text
//! - [`text`]: splitting, lines and decimal numbers
use vstd::prelude::*;

pub mod classifier;
pub mod config;
pub mod interface_probe;
pub mod route_manager;
pub mod ssid_monitor;
pub mod state;
pub mod state_file;
pub mod supervisor;
pub mod text;
pub mod types;
pub mod wg_controller;

verus! {

} // verus!
