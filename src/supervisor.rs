//! The supervisor's policy, as decisions from state and event to state and
//! action: what a network event asks of the state machine, whether the
//! filter may be attached on this network, the attach-retry protocol, the
//! idle check and the shutdown steps. The daemon performs the actions and
//! hands back what came of them.
use vstd::prelude::*;

use crate::config::{contains, in_any_subnet};
use crate::ssid_monitor::NetworkEvent;
use crate::state::{transition, StateAction, StateCommand, StateManager};
use crate::types::TunnelState;
use crate::wg_controller::{activity_after, idle_since};

verus! {

/// Attempts of the attach retry.
pub const MAX_ATTACHMENT_RETRIES: u8 = 5;

/// Seconds before the first retry; each later one waits twice as long.
pub const INITIAL_RETRY_DELAY_SECS: u64 = 1;

/// What to do when the table asks for the filter to be attached.
#[derive(Debug, Clone, Copy, PartialEq, Eq, Structural)]
pub enum AttachPlan {
    /// Add the monitoring routes, then attach the filter.
    AddRoutesAndAttach,
    /// The host address lies in a target subnet: attaching would loop
    /// traffic, so nothing is attached.
    SkipOverlap,
    /// The interface has no IPv4 address yet: start the retry task.
    StartRetry,
    /// The interface has no IPv4 address yet and a retry task already runs.
    RetryRunning,
}

/// One step of the retry task.
#[derive(Debug, Clone, Copy, PartialEq, Eq, Structural)]
pub enum RetryStep {
    /// The address is there: ask the supervisor to attach again.
    Attach,
    /// Sleep this many seconds, then probe again.
    Wait(u64),
    /// All attempts are spent.
    GiveUp,
}

/// The delay before attempt `attempt` (from 1): the initial delay doubled
/// for each earlier attempt.
pub open spec fn retry_delay(attempt: nat) -> nat
    decreases attempt,
{
    if attempt <= 1 {
        INITIAL_RETRY_DELAY_SECS as nat
    } else {
        2 * retry_delay((attempt - 1) as nat)
    }
}

/// The attach decision for a probed host address.
pub open spec fn attach_plan(ip: Option<u32>, subnets: Seq<(u32, u32)>, retry_running: bool) -> AttachPlan {
    match ip {
        Some(a) => if in_any_subnet(a, subnets) {
            AttachPlan::SkipOverlap
        } else {
            AttachPlan::AddRoutesAndAttach
        },
        None => if retry_running {
            AttachPlan::RetryRunning
        } else {
            AttachPlan::StartRetry
        },
    }
}

/// The retry task's decision after attempt `attempt` (from 1) probed the
/// interface: attach when an address came, else wait for the next attempt
/// while attempts are left.
pub open spec fn retry_step(attempt: nat, has_address: bool) -> RetryStep {
    if has_address {
        RetryStep::Attach
    } else if attempt < MAX_ATTACHMENT_RETRIES {
        RetryStep::Wait(retry_delay(attempt + 1) as u64)
    } else {
        RetryStep::GiveUp
    }
}

/// The delay before attempt `attempt` of the retry task.
pub fn retry_delay_secs(attempt: u8) -> (r: u64)
    requires
        1 <= attempt <= MAX_ATTACHMENT_RETRIES,
    ensures
        r == retry_delay(attempt as nat),
{
    let mut d: u64 = INITIAL_RETRY_DELAY_SECS;
    let mut k: u8 = 1;
    while k < attempt
        invariant
            1 <= k <= attempt <= MAX_ATTACHMENT_RETRIES,
            d == retry_delay(k as nat),
            d <= 16,
        decreases attempt - k,
    {
        proof {
            assert(retry_delay((k + 1) as nat) == 2 * retry_delay(k as nat));
            assert(d <= 8) by {
                reveal_with_fuel(retry_delay, 5);
            }
        }
        d = d * 2;
        k = k + 1;
    }
    d
}

/// What the retry task does after attempt `attempt` probed the interface.
pub fn next_retry_step(attempt: u8, has_address: bool) -> (r: RetryStep)
    requires
        1 <= attempt <= MAX_ATTACHMENT_RETRIES,
    ensures
        r == retry_step(attempt as nat, has_address),
{
    if has_address {
        RetryStep::Attach
    } else if attempt < MAX_ATTACHMENT_RETRIES {
        RetryStep::Wait(retry_delay_secs(attempt + 1))
    } else {
        RetryStep::GiveUp
    }
}

/// The retry window is the sum of the five delays: 1 + 2 + 4 + 8 + 16 = 31
/// seconds.
pub proof fn lemma_retry_window()
    ensures
        retry_delay(1) + retry_delay(2) + retry_delay(3) + retry_delay(4) + retry_delay(5) == 31,
{
    reveal_with_fuel(retry_delay, 5);
}

/// Whether an idle time in milliseconds is past a timeout in seconds.
pub open spec fn idle_expired(idle_ms: Option<u64>, timeout_secs: u64) -> bool {
    match idle_ms {
        Some(ms) => ms > timeout_secs * 1000,
        None => false,
    }
}

/// After the tunnel comes up at `t0` (counters zeroed, stamp `t0`), any
/// number of readings that show no traffic leave the stamp at `t0`; so at
/// a time more than the timeout after `t0` the idle check finds the tunnel
/// idle too long.
pub proof fn lemma_quiet_tunnel_times_out(
    t0: u64,
    readings: Seq<(u64, u64, u64)>,
    now: u64,
    timeout_secs: u64,
)
    requires
        forall|i: int| 0 <= i < readings.len() ==> (#[trigger] readings[i]).0 == 0 && readings[i].1 == 0,
        now as int - t0 as int > timeout_secs as int * 1000,
    ensures
        activity_after((0, 0, Some(t0)), readings) == (0u64, 0u64, Some(t0)),
        idle_expired(idle_since(activity_after((0, 0, Some(t0)), readings).2, now), timeout_secs),
    decreases readings.len(),
{
    if readings.len() > 0 {
        let pre = readings.drop_last();
        assert forall|i: int| 0 <= i < pre.len() implies (#[trigger] pre[i]).0 == 0 && pre[i].1 == 0 by {
            assert(pre[i] == readings[i]);
        }
        lemma_quiet_tunnel_times_out(t0, pre, now, timeout_secs);
        assert(readings.last() == readings[readings.len() - 1]);
    }
}

/// The supervisor's own state besides the components it drives: the state
/// machine, the SSID of the approved network, and the retry guard.
pub struct Supervisor {
    machine: StateManager,
    current_ssid: Option<String>,
    retry_in_progress: bool,
}

impl Supervisor {
    /// The current state.
    pub closed spec fn spec_state(&self) -> TunnelState {
        self.machine.spec_state()
    }

    /// The idle timeout, in seconds.
    pub closed spec fn spec_idle_timeout(&self) -> u64 {
        self.machine.spec_idle_timeout()
    }

    /// The SSID of the approved network, if known.
    pub closed spec fn spec_ssid(&self) -> Option<Seq<char>> {
        match self.current_ssid {
            Some(s) => Some(s@),
            None => None,
        }
    }

    /// Whether the retry guard is set.
    pub closed spec fn spec_retry_running(&self) -> bool {
        self.retry_in_progress
    }

    /// A supervisor in `Inactive`, on no approved network, with no retry
    /// running.
    pub fn new(idle_timeout_secs: u64) -> (r: Self)
        ensures
            r.spec_state() == TunnelState::Inactive,
            r.spec_idle_timeout() == idle_timeout_secs,
            r.spec_ssid() is None,
            !r.spec_retry_running(),
    {
        Supervisor {
            machine: StateManager::new(idle_timeout_secs),
            current_ssid: None,
            retry_in_progress: false,
        }
    }

    /// The command that a network event asks for. Connecting records the
    /// SSID (none when empty); disconnecting forgets it and clears the
    /// retry guard so that the next connection may start a fresh retry.
    pub fn on_network_event(&mut self, event: NetworkEvent) -> (r: StateCommand)
        ensures
            final(self).spec_state() == old(self).spec_state(),
            final(self).spec_idle_timeout() == old(self).spec_idle_timeout(),
            event matches NetworkEvent::ConnectedToTarget(s) ==> r == StateCommand::StartMonitoring
                && final(self).spec_ssid() == (if s@.len() == 0 {
                None
            } else {
                Some(s@)
            }) && final(self).spec_retry_running() == old(self).spec_retry_running(),
            event matches NetworkEvent::Disconnected ==> r == StateCommand::StopMonitoring
                && final(self).spec_ssid() is None && !final(self).spec_retry_running(),
    {
        match event {
            NetworkEvent::ConnectedToTarget(ssid) => {
                self.current_ssid = if ssid.as_str().is_empty() {
                    None
                } else {
                    Some(ssid)
                };
                StateCommand::StartMonitoring
            },
            NetworkEvent::Disconnected => {
                self.current_ssid = None;
                self.retry_in_progress = false;
                StateCommand::StopMonitoring
            },
        }
    }

    /// Applies a command to the state machine; returns the action to take.
    pub fn on_command(&mut self, cmd: StateCommand) -> (r: StateAction)
        ensures
            (final(self).spec_state(), r) == transition(old(self).spec_state(), cmd),
            final(self).spec_idle_timeout() == old(self).spec_idle_timeout(),
            final(self).spec_ssid() == old(self).spec_ssid(),
            final(self).spec_retry_running() == old(self).spec_retry_running(),
    {
        self.machine.handle_command(cmd)
    }

    /// Decides the attach: the host address `ip` of the watched interface,
    /// if it has one, against the configured subnets. Starting a retry sets
    /// the guard, so at most one retry task runs.
    pub fn plan_attach(&mut self, ip: Option<u32>, subnets: &[(u32, u32)]) -> (r: AttachPlan)
        ensures
            r == attach_plan(ip, subnets@, old(self).spec_retry_running()),
            final(self).spec_retry_running() == (old(self).spec_retry_running() || r
                == AttachPlan::StartRetry),
            final(self).spec_state() == old(self).spec_state(),
            final(self).spec_idle_timeout() == old(self).spec_idle_timeout(),
            final(self).spec_ssid() == old(self).spec_ssid(),
    {
        match ip {
            Some(a) => if contains(a, subnets) {
                AttachPlan::SkipOverlap
            } else {
                AttachPlan::AddRoutesAndAttach
            },
            None => if self.retry_in_progress {
                AttachPlan::RetryRunning
            } else {
                self.retry_in_progress = true;
                AttachPlan::StartRetry
            },
        }
    }

    /// The retry task ended, by success or by giving up: clears the guard.
    pub fn retry_finished(&mut self)
        ensures
            !final(self).spec_retry_running(),
            final(self).spec_state() == old(self).spec_state(),
            final(self).spec_idle_timeout() == old(self).spec_idle_timeout(),
            final(self).spec_ssid() == old(self).spec_ssid(),
    {
        self.retry_in_progress = false;
    }

    /// Whether a retry that found an address should still attach: only
    /// while the table wants the filter attached.
    pub fn retry_wants_attach(&self) -> (r: bool)
        ensures
            r == (self.spec_state() == TunnelState::Monitoring || self.spec_state()
                == TunnelState::Activating),
    {
        let s = self.machine.state();
        s == TunnelState::Monitoring || s == TunnelState::Activating
    }

    /// The idle check on a tick: only while `Active`, and only when the
    /// idle time is past the timeout, is `IdleTimeout` due.
    pub fn idle_check(&self, idle_ms: Option<u64>) -> (r: Option<StateCommand>)
        ensures
            r == (if self.spec_state() == TunnelState::Active && idle_expired(
                idle_ms,
                self.spec_idle_timeout(),
            ) {
                Some(StateCommand::IdleTimeout)
            } else {
                None::<StateCommand>
            }),
    {
        if self.machine.state() != TunnelState::Active {
            return None;
        }
        match idle_ms {
            Some(ms) => {
                let limit = self.machine.idle_timeout() as u128 * 1000;
                if ms as u128 > limit {
                    Some(StateCommand::IdleTimeout)
                } else {
                    None
                }
            },
            None => None,
        }
    }

    /// The current state.
    pub fn state(&self) -> (r: TunnelState)
        ensures
            r == self.spec_state(),
    {
        self.machine.state()
    }

    /// The SSID of the approved network, if known.
    pub fn current_ssid(&self) -> (r: Option<&str>)
        ensures
            r matches Some(s) ==> self.spec_ssid() == Some(s@),
            r is None ==> self.spec_ssid() is None,
    {
        match &self.current_ssid {
            Some(s) => Some(s.as_str()),
            None => None,
        }
    }

    /// Whether the retry guard is set.
    pub fn retry_running(&self) -> (r: bool)
        ensures
            r == self.spec_retry_running(),
    {
        self.retry_in_progress
    }
}

/// Whether shutdown must bring the tunnel down: when it is up or coming up.
pub fn shutdown_needs_tunnel_down(state: TunnelState) -> (r: bool)
    ensures
        r == (state == TunnelState::Active || state == TunnelState::Activating),
{
    state == TunnelState::Active || state == TunnelState::Activating
}

} // verus!
