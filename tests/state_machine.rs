use std::time::Duration;

use wg_ondemand::state::{StateAction, StateCommand, StateManager};
use wg_ondemand::types::TunnelState;

fn deactivating_manager() -> StateManager {
    let mut manager = StateManager::new(300);
    manager.handle_command(StateCommand::StartMonitoring);
    manager.handle_command(StateCommand::TrafficDetected);
    manager.handle_command(StateCommand::TunnelUp);
    manager.handle_command(StateCommand::IdleTimeout);
    assert_eq!(manager.state(), TunnelState::Deactivating);
    manager
}

#[test]
fn test_initial_state() {
    let manager = StateManager::new(300);
    assert_eq!(manager.state(), TunnelState::Inactive);
}

#[test]
fn test_start_monitoring() {
    let mut manager = StateManager::new(300);
    let action = manager.handle_command(StateCommand::StartMonitoring);
    assert_eq!(action, StateAction::AttachEbpf);
    assert_eq!(manager.state(), TunnelState::Monitoring);
}

#[test]
fn test_traffic_activates_tunnel() {
    let mut manager = StateManager::new(300);
    manager.handle_command(StateCommand::StartMonitoring);
    let action = manager.handle_command(StateCommand::TrafficDetected);
    assert_eq!(action, StateAction::ActivateTunnel);
    assert_eq!(manager.state(), TunnelState::Activating);
}

#[test]
fn test_tunnel_activation_flow() {
    let mut manager = StateManager::new(300);
    manager.handle_command(StateCommand::StartMonitoring);
    assert_eq!(manager.state(), TunnelState::Monitoring);
    manager.handle_command(StateCommand::TrafficDetected);
    assert_eq!(manager.state(), TunnelState::Activating);
    let action = manager.handle_command(StateCommand::TunnelUp);
    assert_eq!(action, StateAction::DetachEbpf);
    assert_eq!(manager.state(), TunnelState::Active);
}

#[test]
fn test_stop_monitoring_while_active() {
    let mut manager = StateManager::new(300);
    manager.handle_command(StateCommand::StartMonitoring);
    manager.handle_command(StateCommand::TrafficDetected);
    manager.handle_command(StateCommand::TunnelUp);
    let action = manager.handle_command(StateCommand::StopMonitoring);
    assert_eq!(action, StateAction::DeactivateTunnel);
    assert_eq!(manager.state(), TunnelState::Deactivating);
}

#[test]
fn test_multiple_start_monitoring_calls() {
    let mut manager = StateManager::new(300);
    let action1 = manager.handle_command(StateCommand::StartMonitoring);
    assert_eq!(action1, StateAction::AttachEbpf);
    assert_eq!(manager.state(), TunnelState::Monitoring);
    let action2 = manager.handle_command(StateCommand::StartMonitoring);
    assert_eq!(action2, StateAction::NoAction);
    assert_eq!(manager.state(), TunnelState::Monitoring);
}

#[test]
fn test_stop_monitoring_from_inactive() {
    let mut manager = StateManager::new(300);
    let action = manager.handle_command(StateCommand::StopMonitoring);
    assert_eq!(action, StateAction::NoAction);
    assert_eq!(manager.state(), TunnelState::Inactive);
}

#[test]
fn test_traffic_detected_while_inactive() {
    let mut manager = StateManager::new(300);
    let action = manager.handle_command(StateCommand::TrafficDetected);
    assert_eq!(action, StateAction::NoAction);
    assert_eq!(manager.state(), TunnelState::Inactive);
}

#[test]
fn test_traffic_detected_while_active() {
    let mut manager = StateManager::new(300);
    manager.handle_command(StateCommand::StartMonitoring);
    manager.handle_command(StateCommand::TrafficDetected);
    manager.handle_command(StateCommand::TunnelUp);
    let action = manager.handle_command(StateCommand::TrafficDetected);
    assert_eq!(action, StateAction::NoAction);
    assert_eq!(manager.state(), TunnelState::Active);
}

#[test]
fn test_traffic_detected_while_activating() {
    let mut manager = StateManager::new(300);
    manager.handle_command(StateCommand::StartMonitoring);
    manager.handle_command(StateCommand::TrafficDetected);
    assert_eq!(manager.state(), TunnelState::Activating);
    let action = manager.handle_command(StateCommand::TrafficDetected);
    assert_eq!(action, StateAction::NoAction);
    assert_eq!(manager.state(), TunnelState::Activating);
}

#[test]
fn test_traffic_detected_while_deactivating() {
    let mut manager = deactivating_manager();
    let action = manager.handle_command(StateCommand::TrafficDetected);
    assert_eq!(action, StateAction::NoAction);
    assert_eq!(manager.state(), TunnelState::Deactivating);
}

#[test]
fn test_tunnel_up_without_activation() {
    let mut manager = StateManager::new(300);
    manager.handle_command(StateCommand::StartMonitoring);
    let action = manager.handle_command(StateCommand::TunnelUp);
    assert_eq!(action, StateAction::NoAction);
    assert_eq!(manager.state(), TunnelState::Monitoring);
}

#[test]
fn test_tunnel_down_while_monitoring() {
    let mut manager = StateManager::new(300);
    manager.handle_command(StateCommand::StartMonitoring);
    let action = manager.handle_command(StateCommand::TunnelDown);
    assert_eq!(action, StateAction::NoAction);
    assert_eq!(manager.state(), TunnelState::Monitoring);
}

#[test]
fn test_tunnel_down_while_inactive() {
    let mut manager = StateManager::new(300);
    let action = manager.handle_command(StateCommand::TunnelDown);
    assert_eq!(action, StateAction::NoAction);
    assert_eq!(manager.state(), TunnelState::Inactive);
}

#[test]
fn test_deactivating_to_monitoring_transition() {
    let mut manager = deactivating_manager();
    let action = manager.handle_command(StateCommand::TunnelDown);
    assert_eq!(action, StateAction::AttachEbpf);
    assert_eq!(manager.state(), TunnelState::Monitoring);
}

#[test]
fn test_stop_monitoring_while_activating() {
    let mut manager = StateManager::new(300);
    manager.handle_command(StateCommand::StartMonitoring);
    manager.handle_command(StateCommand::TrafficDetected);
    assert_eq!(manager.state(), TunnelState::Activating);
    let action = manager.handle_command(StateCommand::StopMonitoring);
    assert_eq!(action, StateAction::DetachEbpf);
    assert_eq!(manager.state(), TunnelState::Inactive);
}

#[test]
fn test_rapid_state_transitions() {
    let mut manager = StateManager::new(300);
    manager.handle_command(StateCommand::StartMonitoring);
    assert_eq!(manager.state(), TunnelState::Monitoring);
    manager.handle_command(StateCommand::TrafficDetected);
    assert_eq!(manager.state(), TunnelState::Activating);
    let action = manager.handle_command(StateCommand::StopMonitoring);
    assert_eq!(action, StateAction::DetachEbpf);
    assert_eq!(manager.state(), TunnelState::Inactive);
}

#[test]
fn test_idle_timeout_getter() {
    let manager = StateManager::new(600);
    assert_eq!(Duration::from_secs(manager.idle_timeout()), Duration::from_secs(600));
}

#[test]
fn test_state_getter() {
    let mut manager = StateManager::new(300);
    assert_eq!(manager.state(), TunnelState::Inactive);
    manager.handle_command(StateCommand::StartMonitoring);
    assert_eq!(manager.state(), TunnelState::Monitoring);
}

#[test]
fn test_idle_timeout_deactivates_tunnel() {
    let mut manager = StateManager::new(300);
    manager.handle_command(StateCommand::StartMonitoring);
    manager.handle_command(StateCommand::TrafficDetected);
    manager.handle_command(StateCommand::TunnelUp);
    assert_eq!(manager.state(), TunnelState::Active);
    let action = manager.handle_command(StateCommand::IdleTimeout);
    assert_eq!(action, StateAction::DeactivateTunnel);
    assert_eq!(manager.state(), TunnelState::Deactivating);
    let action = manager.handle_command(StateCommand::TunnelDown);
    assert_eq!(action, StateAction::AttachEbpf);
    assert_eq!(manager.state(), TunnelState::Monitoring);
}

#[test]
fn test_idle_timeout_ignored_when_not_active() {
    let mut manager = StateManager::new(300);
    let action = manager.handle_command(StateCommand::IdleTimeout);
    assert_eq!(action, StateAction::NoAction);
    assert_eq!(manager.state(), TunnelState::Inactive);
    manager.handle_command(StateCommand::StartMonitoring);
    let action = manager.handle_command(StateCommand::IdleTimeout);
    assert_eq!(action, StateAction::NoAction);
    assert_eq!(manager.state(), TunnelState::Monitoring);
    manager.handle_command(StateCommand::TrafficDetected);
    assert_eq!(manager.state(), TunnelState::Activating);
    let action = manager.handle_command(StateCommand::IdleTimeout);
    assert_eq!(action, StateAction::NoAction);
    assert_eq!(manager.state(), TunnelState::Activating);
}

#[test]
fn attach_and_detach_alternate_over_a_long_run() {
    let cmds = [
        StateCommand::StartMonitoring,
        StateCommand::StartMonitoring,
        StateCommand::TrafficDetected,
        StateCommand::TunnelUp,
        StateCommand::TrafficDetected,
        StateCommand::IdleTimeout,
        StateCommand::TunnelDown,
        StateCommand::TrafficDetected,
        StateCommand::StopMonitoring,
        StateCommand::StartMonitoring,
        StateCommand::StopMonitoring,
        StateCommand::StopMonitoring,
    ];
    let mut manager = StateManager::new(300);
    let mut filter_actions = Vec::new();
    for cmd in cmds {
        let a = manager.handle_command(cmd);
        if a == StateAction::AttachEbpf || a == StateAction::DetachEbpf {
            filter_actions.push(a);
        }
    }
    assert_eq!(filter_actions[0], StateAction::AttachEbpf);
    for w in filter_actions.windows(2) {
        assert_ne!(w[0], w[1]);
    }
    assert_eq!(filter_actions.len(), 6);
}

#[test]
fn disconnect_then_tunnel_down_settles() {
    let mut manager = StateManager::new(300);
    manager.handle_command(StateCommand::StartMonitoring);
    manager.handle_command(StateCommand::TrafficDetected);
    manager.handle_command(StateCommand::TunnelUp);
    assert_eq!(manager.handle_command(StateCommand::StopMonitoring), StateAction::DeactivateTunnel);
    assert_eq!(manager.handle_command(StateCommand::TunnelDown), StateAction::AttachEbpf);
    assert_eq!(manager.state(), TunnelState::Monitoring);

    let mut other = StateManager::new(300);
    other.handle_command(StateCommand::StartMonitoring);
    assert_eq!(other.handle_command(StateCommand::StopMonitoring), StateAction::DetachEbpf);
    assert_eq!(other.state(), TunnelState::Inactive);
}

#[test]
fn tunnel_already_up_skips_activation() {
    let mut manager = StateManager::new(300);
    manager.handle_command(StateCommand::StartMonitoring);
    let action = manager.handle_command(StateCommand::TunnelAlreadyUp);
    assert_eq!(action, StateAction::NoAction);
    assert_eq!(manager.state(), TunnelState::Active);
}

#[test]
fn tunnel_already_up_then_teardown_attaches_again() {
    let mut manager = StateManager::new(300);
    assert_eq!(manager.handle_command(StateCommand::StartMonitoring), StateAction::AttachEbpf);
    assert_eq!(manager.handle_command(StateCommand::TunnelAlreadyUp), StateAction::NoAction);
    assert_eq!(manager.handle_command(StateCommand::IdleTimeout), StateAction::DeactivateTunnel);
    assert_eq!(manager.handle_command(StateCommand::TunnelDown), StateAction::AttachEbpf);
    assert_eq!(manager.state(), TunnelState::Monitoring);
}
