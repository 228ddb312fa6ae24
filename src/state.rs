//! The tunnel lifecycle state machine: a pure step from (state, command)
//! to (state', action), and the laws that its runs obey.
use vstd::prelude::*;

use crate::types::TunnelState;

verus! {

/// Commands that drive the state machine.
#[derive(Debug, Clone, Copy, PartialEq, Eq, Structural)]
pub enum StateCommand {
    /// Connected to an approved network.
    StartMonitoring,
    /// Disconnected from the approved network.
    StopMonitoring,
    /// Outbound traffic to a target subnet was seen.
    TrafficDetected,
    /// The tunnel came up.
    TunnelUp,
    /// The tunnel went down.
    TunnelDown,
    /// The tunnel stayed idle past the configured timeout.
    IdleTimeout,
    /// The tunnel was found up at startup.
    TunnelAlreadyUp,
}

/// What the supervisor must do after a step.
#[derive(Debug, Clone, Copy, PartialEq, Eq, Structural)]
pub enum StateAction {
    /// Bring the tunnel up.
    ActivateTunnel,
    /// Bring the tunnel down.
    DeactivateTunnel,
    /// Add the monitoring routes and attach the traffic filter.
    AttachEbpf,
    /// Detach the traffic filter and remove the monitoring routes.
    DetachEbpf,
    /// Nothing to do.
    NoAction,
}

/// The transition table: the next state and the action for a command.
/// Pairs not listed leave the state as it is and ask for no action.
pub open spec fn transition(s: TunnelState, c: StateCommand) -> (TunnelState, StateAction) {
    match (s, c) {
        (TunnelState::Inactive, StateCommand::StartMonitoring) => (
            TunnelState::Monitoring,
            StateAction::AttachEbpf,
        ),
        (TunnelState::Monitoring, StateCommand::StopMonitoring) => (
            TunnelState::Inactive,
            StateAction::DetachEbpf,
        ),
        (TunnelState::Monitoring, StateCommand::TrafficDetected) => (
            TunnelState::Activating,
            StateAction::ActivateTunnel,
        ),
        (TunnelState::Monitoring, StateCommand::TunnelAlreadyUp) => (
            TunnelState::Active,
            StateAction::NoAction,
        ),
        (TunnelState::Activating, StateCommand::TunnelUp) => (
            TunnelState::Active,
            StateAction::DetachEbpf,
        ),
        (TunnelState::Activating, StateCommand::StopMonitoring) => (
            TunnelState::Inactive,
            StateAction::DetachEbpf,
        ),
        (TunnelState::Active, StateCommand::StopMonitoring) => (
            TunnelState::Deactivating,
            StateAction::DeactivateTunnel,
        ),
        (TunnelState::Active, StateCommand::IdleTimeout) => (
            TunnelState::Deactivating,
            StateAction::DeactivateTunnel,
        ),
        (TunnelState::Deactivating, StateCommand::TunnelDown) => (
            TunnelState::Monitoring,
            StateAction::AttachEbpf,
        ),
        _ => (s, StateAction::NoAction),
    }
}

/// Runs a sequence of commands from `s`: the final state and the actions in order.
pub open spec fn run(s: TunnelState, cmds: Seq<StateCommand>) -> (TunnelState, Seq<StateAction>)
    decreases cmds.len(),
{
    if cmds.len() == 0 {
        (s, Seq::empty())
    } else {
        let prev = run(s, cmds.drop_last());
        let step = transition(prev.0, cmds.last());
        (step.0, prev.1.push(step.1))
    }
}

/// Whether an action attaches or detaches the traffic filter.
pub open spec fn is_filter_action(a: StateAction) -> bool {
    a == StateAction::AttachEbpf || a == StateAction::DetachEbpf
}

/// The attach and detach actions of a history, in order.
pub open spec fn filter_actions(acts: Seq<StateAction>) -> Seq<StateAction>
    decreases acts.len(),
{
    if acts.len() == 0 {
        Seq::empty()
    } else if is_filter_action(acts.last()) {
        filter_actions(acts.drop_last()).push(acts.last())
    } else {
        filter_actions(acts.drop_last())
    }
}

/// Attach and detach alternate, starting with an attach.
pub open spec fn alternates(f: Seq<StateAction>) -> bool {
    &&& forall|i: int| 0 <= i < f.len() ==> is_filter_action(#[trigger] f[i])
    &&& f.len() > 0 ==> f[0] == StateAction::AttachEbpf
    &&& forall|i: int| 0 <= i < f.len() - 1 ==> #[trigger] f[i] != f[i + 1]
}

/// The states in which the table leaves the filter attached.
pub open spec fn filter_expected(s: TunnelState) -> bool {
    s == TunnelState::Monitoring || s == TunnelState::Activating
}

/// Disconnect, then finish a pending teardown: the state that results.
pub open spec fn settle_after_disconnect(s: TunnelState) -> TunnelState {
    let s1 = transition(s, StateCommand::StopMonitoring).0;
    if s1 == TunnelState::Deactivating {
        transition(s1, StateCommand::TunnelDown).0
    } else {
        s1
    }
}

/// The number of attach and detach actions over the first `k` commands.
pub open spec fn filter_count(cmds: Seq<StateCommand>, k: int) -> nat {
    filter_actions(run(TunnelState::Inactive, cmds.take(k)).1).len()
}

/// Command `i` claims the tunnel is already up while `Monitoring`: the
/// filter stays attached while the state becomes `Active`.
pub open spec fn claims_up_while_monitoring(cmds: Seq<StateCommand>, i: int) -> bool {
    cmds[i] == StateCommand::TunnelAlreadyUp && run(TunnelState::Inactive, cmds.take(i)).0
        == TunnelState::Monitoring
}

/// No such claim is followed by a further attach or detach.
pub open spec fn no_filter_action_after_claim(cmds: Seq<StateCommand>) -> bool {
    forall|i: int|
        0 <= i < cmds.len() && #[trigger] claims_up_while_monitoring(cmds, i) ==> filter_count(
            cmds,
            i + 1,
        ) == filter_count(cmds, cmds.len() as int)
}

proof fn lemma_take_step(cmds: Seq<StateCommand>, k: int)
    requires
        0 <= k < cmds.len(),
    ensures
        run(TunnelState::Inactive, cmds.take(k + 1)) == ({
            let prev = run(TunnelState::Inactive, cmds.take(k));
            let step = transition(prev.0, cmds[k]);
            (step.0, prev.1.push(step.1))
        }),
{
    assert(cmds.take(k + 1).drop_last() =~= cmds.take(k));
}

proof fn lemma_filter_count_monotone(cmds: Seq<StateCommand>, j: int, k: int)
    requires
        0 <= j <= k <= cmds.len(),
    ensures
        filter_count(cmds, j) <= filter_count(cmds, k),
    decreases k - j,
{
    if j < k {
        lemma_filter_count_monotone(cmds, j, k - 1);
        lemma_take_step(cmds, k - 1);
        let prev = run(TunnelState::Inactive, cmds.take(k - 1));
        let step = transition(prev.0, cmds[k - 1]);
        assert(prev.1.push(step.1).drop_last() =~= prev.1);
    }
}

/// Over any run from `Inactive`, the filter is attached exactly when the
/// table wants it attached (`Monitoring`, `Activating`): the last filter
/// action is an attach exactly then, and with no filter action yet it is
/// not wanted. The one departure is a claim that the tunnel was already up
/// while `Monitoring`: from then on the filter stays attached through
/// `Active` and `Deactivating`.
pub proof fn lemma_filter_actions_track_state(cmds: Seq<StateCommand>)
    requires
        no_filter_action_after_claim(cmds),
    ensures
        alternates(filter_actions(run(TunnelState::Inactive, cmds).1)),
        ({
            let r = run(TunnelState::Inactive, cmds);
            let f = filter_actions(r.1);
            if exists|i: int| 0 <= i < cmds.len() && #[trigger] claims_up_while_monitoring(cmds, i) {
                f.len() > 0 && f.last() == StateAction::AttachEbpf && (r.0 == TunnelState::Active
                    || r.0 == TunnelState::Deactivating)
            } else {
                &&& f.len() == 0 ==> !filter_expected(r.0)
                &&& f.len() > 0 ==> (f.last() == StateAction::AttachEbpf <==> filter_expected(r.0))
            }
        }),
    decreases cmds.len(),
{
    let n = cmds.len() as int;
    assert(cmds.take(n) =~= cmds);
    if n > 0 {
        let pre = cmds.drop_last();
        let c = cmds.last();
        assert forall|i: int|
            0 <= i < pre.len() && #[trigger] claims_up_while_monitoring(pre, i) implies filter_count(
            pre,
            i + 1,
        ) == filter_count(pre, pre.len() as int) by {
            assert(pre.take(i) =~= cmds.take(i));
            assert(pre.take(i + 1) =~= cmds.take(i + 1));
            assert(pre.take(n - 1) =~= cmds.take(n - 1));
            assert(claims_up_while_monitoring(cmds, i));
            lemma_filter_count_monotone(cmds, i + 1, n - 1);
            lemma_filter_count_monotone(cmds, n - 1, n);
        }
        lemma_filter_actions_track_state(pre);
        assert(pre =~= cmds.take(n - 1));
        lemma_take_step(cmds, n - 1);
        let prev = run(TunnelState::Inactive, pre);
        let step = transition(prev.0, c);
        let acts = prev.1.push(step.1);
        assert(acts.drop_last() =~= prev.1);
        assert(acts.last() == step.1);
        if exists|i: int| 0 <= i < pre.len() && #[trigger] claims_up_while_monitoring(pre, i) {
            let i = choose|i: int| 0 <= i < pre.len() && #[trigger] claims_up_while_monitoring(pre, i);
            assert(pre.take(i) =~= cmds.take(i));
            assert(claims_up_while_monitoring(cmds, i));
            lemma_filter_count_monotone(cmds, i + 1, n - 1);
            assert(pre.take(i + 1) =~= cmds.take(i + 1));
            assert(filter_count(cmds, n - 1) == filter_count(cmds, n));
        } else {
            if claims_up_while_monitoring(cmds, n - 1) {
                assert(cmds.take(n - 1) =~= pre);
            }
            assert forall|i: int| 0 <= i < n - 1 implies !#[trigger] claims_up_while_monitoring(
                cmds,
                i,
            ) by {
                assert(pre.take(i) =~= cmds.take(i));
                if claims_up_while_monitoring(cmds, i) {
                    assert(claims_up_while_monitoring(pre, i));
                }
            }
        }
    }
}

/// Over any run from `Inactive`, attach and detach actions alternate,
/// beginning with an attach: never two attaches without a detach between
/// them, nor two detaches. Runs in which the tunnel is claimed already up
/// while `Monitoring` and a filter action follows are left out: there the
/// filter, still attached, is attached again when the tunnel goes down.
pub proof fn lemma_attach_detach_alternate(cmds: Seq<StateCommand>)
    requires
        no_filter_action_after_claim(cmds),
    ensures
        alternates(filter_actions(run(TunnelState::Inactive, cmds).1)),
{
    lemma_filter_actions_track_state(cmds);
}

/// From any state reached from `Inactive`, a disconnect followed, where the
/// table asks for it, by the tunnel going down ends in `Inactive` when no
/// tunnel was up, and in `Monitoring` when one was up or going down.
pub proof fn lemma_disconnect_settles(cmds: Seq<StateCommand>)
    ensures
        ({
            let s = run(TunnelState::Inactive, cmds).0;
            let t = settle_after_disconnect(s);
            &&& (t == TunnelState::Inactive || t == TunnelState::Monitoring)
            &&& (t == TunnelState::Monitoring <==> (s == TunnelState::Active || s
                == TunnelState::Deactivating))
        }),
{
}

/// The state machine together with the configured idle timeout.
pub struct StateManager {
    state: TunnelState,
    idle_timeout_secs: u64,
}

impl StateManager {
    /// The current state.
    pub closed spec fn spec_state(&self) -> TunnelState {
        self.state
    }

    /// The idle timeout, in seconds.
    pub closed spec fn spec_idle_timeout(&self) -> u64 {
        self.idle_timeout_secs
    }

    /// A machine in `Inactive` with the given idle timeout in seconds.
    pub fn new(idle_timeout_secs: u64) -> (r: Self)
        ensures
            r.spec_state() == TunnelState::Inactive,
            r.spec_idle_timeout() == idle_timeout_secs,
    {
        StateManager { state: TunnelState::Inactive, idle_timeout_secs }
    }

    /// Applies one command; returns the action that the supervisor must take.
    pub fn handle_command(&mut self, cmd: StateCommand) -> (r: StateAction)
        ensures
            (final(self).spec_state(), r) == transition(old(self).spec_state(), cmd),
            final(self).spec_idle_timeout() == old(self).spec_idle_timeout(),
    {
        match (self.state, cmd) {
            (TunnelState::Inactive, StateCommand::StartMonitoring) => {
                self.state = TunnelState::Monitoring;
                StateAction::AttachEbpf
            },
            (TunnelState::Monitoring, StateCommand::StopMonitoring) => {
                self.state = TunnelState::Inactive;
                StateAction::DetachEbpf
            },
            (TunnelState::Active, StateCommand::StopMonitoring) => {
                self.state = TunnelState::Deactivating;
                StateAction::DeactivateTunnel
            },
            (TunnelState::Activating, StateCommand::StopMonitoring) => {
                self.state = TunnelState::Inactive;
                StateAction::DetachEbpf
            },
            (TunnelState::Monitoring, StateCommand::TrafficDetected) => {
                self.state = TunnelState::Activating;
                StateAction::ActivateTunnel
            },
            (TunnelState::Monitoring, StateCommand::TunnelAlreadyUp) => {
                self.state = TunnelState::Active;
                StateAction::NoAction
            },
            (TunnelState::Activating, StateCommand::TunnelUp) => {
                self.state = TunnelState::Active;
                StateAction::DetachEbpf
            },
            (TunnelState::Deactivating, StateCommand::TunnelDown) => {
                self.state = TunnelState::Monitoring;
                StateAction::AttachEbpf
            },
            (TunnelState::Active, StateCommand::IdleTimeout) => {
                self.state = TunnelState::Deactivating;
                StateAction::DeactivateTunnel
            },
            _ => StateAction::NoAction,
        }
    }

    /// The current state.
    pub fn state(&self) -> (r: TunnelState)
        ensures
            r == self.spec_state(),
    {
        self.state
    }

    /// The idle timeout, in seconds.
    pub fn idle_timeout(&self) -> (r: u64)
        ensures
            r == self.spec_idle_timeout(),
    {
        self.idle_timeout_secs
    }
}

} // verus!
