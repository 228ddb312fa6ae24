use wg_ondemand::wg_controller::{validate_interface_name, validate_name, NameError, WgController};

#[test]
fn test_wg_controller_creation() {
    let controller = WgController::new("wg0".to_string(), None).unwrap();
    assert_eq!(controller.interface(), "wg0");
    assert_eq!(controller.last_rx_bytes(), 0);
    assert_eq!(controller.last_tx_bytes(), 0);
    assert!(controller.last_activity().is_none());
}

#[test]
fn test_wg_controller_with_nm_connection() {
    let controller = WgController::new("wg0".to_string(), Some("my-vpn".to_string())).unwrap();
    assert_eq!(controller.interface(), "wg0");
}

#[test]
fn test_validate_name_valid() {
    assert!(validate_name("wg0", "test").is_ok());
    assert!(validate_name("wlan0", "test").is_ok());
    assert!(validate_name("my-vpn", "test").is_ok());
    assert!(validate_name("my_vpn", "test").is_ok());
    assert!(validate_name("WireGuard-VPN_123", "test").is_ok());
}

#[test]
fn test_validate_name_invalid_special_chars() {
    assert!(validate_name("wg0; rm -rf /", "test").is_err());
    assert!(validate_name("wg0 && echo pwned", "test").is_err());
    assert!(validate_name("wg0|cat /etc/passwd", "test").is_err());
    assert!(validate_name("$(malicious)", "test").is_err());
    assert!(validate_name("`whoami`", "test").is_err());
    assert!(validate_name("wg0$VAR", "test").is_err());
    assert!(validate_name("wg0'test", "test").is_err());
    assert!(validate_name("wg0\"test", "test").is_err());
    assert!(validate_name("wg0\ntest", "test").is_err());
    assert!(validate_name("wg0/test", "test").is_err());
    assert!(validate_name("wg0\\test", "test").is_err());
}

#[test]
fn test_validate_name_empty() {
    assert!(validate_name("", "test").is_err());
}

#[test]
fn test_wg_controller_creation_invalid_interface() {
    assert!(WgController::new("wg0; rm -rf /".to_string(), None).is_err());
    assert!(WgController::new("wg0 && echo pwned".to_string(), None).is_err());
}

#[test]
fn test_wg_controller_creation_invalid_nm_connection() {
    assert!(WgController::new("wg0".to_string(), Some("vpn; malicious".to_string())).is_err());
    assert!(WgController::new("wg0".to_string(), Some("$(echo pwned)".to_string())).is_err());
}

#[test]
fn test_parse_wg_show_output_single_peer() {
    let (rx, tx) = WgController::parse_wg_transfer_output("peer1_pubkey\t1024\t2048\n");
    assert_eq!(rx, 1024);
    assert_eq!(tx, 2048);
}

#[test]
fn test_parse_wg_show_output_multiple_peers() {
    let output = "peer1_pubkey\t1000\t2000\npeer2_pubkey\t500\t1000\n";
    let (rx, tx) = WgController::parse_wg_transfer_output(output);
    assert_eq!(rx, 1500);
    assert_eq!(tx, 3000);
}

#[test]
fn test_parse_wg_show_output_empty() {
    let (rx, tx) = WgController::parse_wg_transfer_output("");
    assert_eq!(rx, 0);
    assert_eq!(tx, 0);
}

#[test]
fn test_parse_wg_show_output_whitespace_only() {
    let (rx, tx) = WgController::parse_wg_transfer_output("\n\n\n");
    assert_eq!(rx, 0);
    assert_eq!(tx, 0);
}

#[test]
fn test_parse_wg_show_output_malformed_invalid_numbers() {
    let output = "peer1\tinvalid\t2000\npeer2\t500\t1000\n";
    let (rx, tx) = WgController::parse_wg_transfer_output(output);
    assert_eq!(rx, 500);
    assert_eq!(tx, 1000);
}

#[test]
fn test_parse_wg_show_output_malformed_missing_fields() {
    let output = "peer1\t1000\npeer2\t500\t1000\t9999\n";
    let (rx, tx) = WgController::parse_wg_transfer_output(output);
    assert_eq!(rx, 500);
    assert_eq!(tx, 1000);
}

#[test]
fn test_parse_wg_show_output_large_numbers() {
    let output = "peer1\t18446744073709551615\t18446744073709551615\n";
    let (rx, tx) = WgController::parse_wg_transfer_output(output);
    assert_eq!(rx, u64::MAX);
    assert_eq!(tx, u64::MAX);
}

#[test]
fn test_parse_wg_show_output_zero_values() {
    let (rx, tx) = WgController::parse_wg_transfer_output("peer1\t0\t0\npeer2\t0\t0\n");
    assert_eq!(rx, 0);
    assert_eq!(tx, 0);
}

#[test]
fn test_parse_wg_show_output_mixed_valid_invalid() {
    let output = "peer1\t100\t200\ninvalid_line\npeer2\t300\t400\npeer3\tbad\t500\n";
    let (rx, tx) = WgController::parse_wg_transfer_output(output);
    assert_eq!(rx, 400);
    assert_eq!(tx, 600);
}

#[test]
fn test_idle_duration_no_activity() {
    let controller = WgController::new("wg0".to_string(), None).unwrap();
    assert_eq!(controller.idle_duration(5_000), None);
}

#[test]
fn test_idle_duration_with_activity() {
    let mut controller = WgController::new("wg0".to_string(), None).unwrap();
    controller.check_activity(1, 1, 10_000);
    let duration = controller.idle_duration(10_100).unwrap();
    assert!(duration >= 100);
    assert!(duration < 200);
}

#[test]
fn test_reset_activity() {
    let mut controller = WgController::new("wg0".to_string(), None).unwrap();
    controller.check_activity(1000, 2000, 50);
    controller.reset_activity(7_000);
    assert_eq!(controller.last_rx_bytes(), 0);
    assert_eq!(controller.last_tx_bytes(), 0);
    assert!(controller.last_activity().is_some());
    let duration = controller.idle_duration(7_000).unwrap();
    assert!(duration < 100);
}

#[test]
fn transfer_lines_in_any_order_give_the_same_totals() {
    let a = "peer1\t10\t20\npeer2\t5\t7\nnoise\npeer3\tx\t1\n";
    let b = "peer3\tx\t1\nnoise\npeer2\t5\t7\npeer1\t10\t20\n";
    assert_eq!(WgController::parse_wg_transfer_output(a), (15, 27));
    assert_eq!(WgController::parse_wg_transfer_output(a), WgController::parse_wg_transfer_output(b));
}

#[test]
fn transfer_totals_wrap_and_accept_crlf_and_plus() {
    let output = "peer1\t18446744073709551615\t1\r\npeer2\t+2\t3\n";
    assert_eq!(WgController::parse_wg_transfer_output(output), (1, 4));
    assert_eq!(WgController::parse_wg_transfer_output("p\t18446744073709551616\t1\n"), (0, 0));
}

#[test]
fn activity_is_stamped_only_on_change() {
    let mut c = WgController::new("wg0".to_string(), None).unwrap();
    assert!(c.check_activity(10, 0, 100));
    assert!(!c.check_activity(10, 0, 200));
    assert_eq!(c.last_activity(), Some(100));
    assert!(c.check_activity(10, 1, 300));
    assert_eq!(c.last_activity(), Some(300));
    assert_eq!(c.idle_duration(301_300), Some(301_000));
}

#[test]
fn stats_query_name_prefers_connection() {
    let c = WgController::new("wg0".to_string(), Some("home-vpn".to_string())).unwrap();
    assert_eq!(c.wg_stats_interface(), "home-vpn");
    let c = WgController::new("wg0".to_string(), None).unwrap();
    assert_eq!(c.wg_stats_interface(), "wg0");
}

#[test]
fn name_errors_name_the_field() {
    assert_eq!(validate_name("", "field"), Err(NameError::Empty("field".to_string())));
    assert_eq!(
        validate_name("a b", "field"),
        Err(NameError::InvalidCharacters("field".to_string()))
    );
    assert!(validate_interface_name("eth0").is_ok());
    assert!(validate_interface_name("eth0;").is_err());
}
