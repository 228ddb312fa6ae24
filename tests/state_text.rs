use wg_ondemand::state_file::{state_file_content, state_label};
use wg_ondemand::types::TunnelState;
use wg_ondemand::wg_controller::{sum_peer_stats, DownOutcome, WgController};

#[test]
fn state_labels() {
    assert_eq!(state_label(TunnelState::Inactive), "inactive");
    assert_eq!(state_label(TunnelState::Monitoring), "monitoring");
    assert_eq!(state_label(TunnelState::Activating), "activating");
    assert_eq!(state_label(TunnelState::Active), "connected");
    assert_eq!(state_label(TunnelState::Deactivating), "deactivating");
}

#[test]
fn state_file_lines() {
    assert_eq!(
        state_file_content(TunnelState::Active, Some("Home"), 1_700_000_123),
        "STATE=connected\nSSID=Home\nTIMESTAMP=1700000123\n"
    );
    assert_eq!(
        state_file_content(TunnelState::Inactive, None, 0),
        "STATE=inactive\nSSID=\nTIMESTAMP=0\n"
    );
    assert_eq!(
        state_file_content(TunnelState::Monitoring, None, u64::MAX),
        "STATE=monitoring\nSSID=\nTIMESTAMP=18446744073709551615\n"
    );
}

#[test]
fn tunnel_commands() {
    let c = WgController::new("wg0".to_string(), None).unwrap();
    let up = c.tunnel_command(true);
    assert_eq!(up.program, "wg-quick");
    assert_eq!(up.args, vec!["up".to_string(), "wg0".to_string()]);
    let nm = WgController::new("wg0".to_string(), Some("home-vpn".to_string())).unwrap();
    let down = nm.tunnel_command(false);
    assert_eq!(down.program, "nmcli");
    assert_eq!(down.args, vec!["connection".to_string(), "down".to_string(), "home-vpn".to_string()]);
}

#[test]
fn down_outcomes() {
    let c = WgController::new("wg0".to_string(), None).unwrap();
    assert_eq!(c.down_outcome(true, ""), DownOutcome::Down);
    assert_eq!(
        c.down_outcome(false, "wg-quick: `wg0' is not a WireGuard interface"),
        DownOutcome::AlreadyDown
    );
    assert_eq!(c.down_outcome(false, "permission denied"), DownOutcome::Failed);
    let nm = WgController::new("wg0".to_string(), Some("vpn".to_string())).unwrap();
    assert_eq!(
        nm.down_outcome(false, "Error: 'vpn' is not an active connection."),
        DownOutcome::AlreadyDown
    );
    assert_eq!(nm.down_outcome(false, "Error: timeout"), DownOutcome::Failed);
}

#[test]
fn peer_counters_are_summed() {
    assert_eq!(sum_peer_stats(&[]), (0, 0));
    assert_eq!(sum_peer_stats(&[(100, 200), (5, 7)]), (105, 207));
    assert_eq!(sum_peer_stats(&[(u64::MAX, 1), (2, 1)]), (1, 2));
}
