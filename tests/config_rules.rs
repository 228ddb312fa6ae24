use wg_ondemand::config::{
    contains, ip_in_subnets, is_target_subnet, parse_cidr, validate_config, CidrError, ConfigError,
};
use wg_ondemand::types::{Config, GeneralConfig, SsidList, SubnetConfig};

fn base_config(ranges: Vec<String>) -> Config {
    Config {
        general: GeneralConfig {
            target_ssids: SsidList(vec!["TestSSID".to_string()]),
            exclude_ssids: vec![],
            wg_interface: "wg0".to_string(),
            nm_connection: None,
            monitor_interface: None,
            idle_timeout: 300,
            log_level: "info".to_string(),
        },
        subnets: SubnetConfig { ranges },
    }
}

#[test]
fn test_parse_cidr() {
    let (network, mask) = parse_cidr("192.168.1.0/24").unwrap();
    assert_eq!(network, u32::from_be_bytes([192, 168, 1, 0]));
    assert_eq!(mask, u32::from_be_bytes([255, 255, 255, 0]));
    let (network, mask) = parse_cidr("10.0.0.1/32").unwrap();
    assert_eq!(network, u32::from_be_bytes([10, 0, 0, 1]));
    assert_eq!(mask, 0xFFFFFFFF);
    let (network, mask) = parse_cidr("172.16.0.0/16").unwrap();
    assert_eq!(network, u32::from_be_bytes([172, 16, 0, 0]));
    assert_eq!(mask, u32::from_be_bytes([255, 255, 0, 0]));
}

#[test]
fn test_parse_cidr_invalid() {
    assert!(parse_cidr("invalid").is_err());
    assert!(parse_cidr("192.168.1.0").is_err());
    assert!(parse_cidr("192.168.1.0/").is_err());
    assert!(parse_cidr("192.168.1.0/33").is_err());
    assert!(parse_cidr("999.999.999.999/24").is_err());
}

#[test]
fn test_validate_config() {
    let config = base_config(vec!["192.168.1.0/24".to_string()]);
    assert!(validate_config(&config).is_ok());

    let mut all_networks_config = config.clone();
    all_networks_config.general.target_ssids = SsidList(vec![]);
    all_networks_config.general.exclude_ssids = vec![];
    assert!(validate_config(&all_networks_config).is_ok());

    let mut bad_config = config.clone();
    bad_config.general.target_ssids = SsidList(vec!["TestSSID".to_string()]);
    bad_config.general.exclude_ssids = vec!["TestSSID".to_string()];
    assert!(validate_config(&bad_config).is_err());

    let mut bad_config = config.clone();
    bad_config.general.idle_timeout = 0;
    assert!(validate_config(&bad_config).is_err());

    let mut bad_config = config.clone();
    bad_config.subnets.ranges = vec!["invalid".to_string()];
    assert!(validate_config(&bad_config).is_err());
}

#[test]
fn test_ip_in_subnets() {
    let subnets = vec!["192.168.1.0/24".to_string(), "10.0.0.0/8".to_string()];
    let ip = u32::from_be_bytes([192, 168, 1, 50]);
    assert!(ip_in_subnets(ip, &subnets).unwrap());
    let ip = u32::from_be_bytes([10, 20, 30, 40]);
    assert!(ip_in_subnets(ip, &subnets).unwrap());
    let ip = u32::from_be_bytes([172, 16, 0, 1]);
    assert!(!ip_in_subnets(ip, &subnets).unwrap());
    let ip = u32::from_be_bytes([192, 168, 1, 0]);
    assert!(ip_in_subnets(ip, &subnets).unwrap());
    let ip = u32::from_be_bytes([192, 168, 1, 255]);
    assert!(ip_in_subnets(ip, &subnets).unwrap());
}

#[test]
fn test_parse_cidr_edge_cases() {
    let (network, mask) = parse_cidr("0.0.0.0/0").unwrap();
    assert_eq!(network, 0);
    assert_eq!(mask, 0);
    assert!(parse_cidr("10.0.0.0/31").is_ok());
    let (network, mask) = parse_cidr("255.255.255.255/32").unwrap();
    assert_eq!(network, 0xFFFFFFFF);
    assert_eq!(mask, 0xFFFFFFFF);
}

#[test]
fn test_validate_config_empty_subnets() {
    let config = base_config(vec![]);
    assert!(validate_config(&config).is_err());
}

#[test]
fn test_validate_config_too_many_subnets() {
    let config = base_config((0..17).map(|i| format!("10.{}.0.0/24", i)).collect());
    assert!(validate_config(&config).is_err());
}

#[test]
fn test_validate_config_max_subnets() {
    let config = base_config((0..16).map(|i| format!("10.{}.0.0/24", i)).collect());
    assert!(validate_config(&config).is_ok());
}

#[test]
fn test_validate_config_overlapping_subnets() {
    let config = base_config(vec!["192.168.0.0/16".to_string(), "192.168.1.0/24".to_string()]);
    assert!(validate_config(&config).is_ok());
}

#[test]
fn test_validate_config_idle_timeout_bounds() {
    let base = base_config(vec!["192.168.1.0/24".to_string()]);
    let mut config = base.clone();
    config.general.idle_timeout = 1;
    assert!(validate_config(&config).is_ok());
    let mut config = base.clone();
    config.general.idle_timeout = 86400;
    assert!(validate_config(&config).is_ok());
}

#[test]
fn test_validate_config_empty_interface_name() {
    let mut config = base_config(vec!["192.168.1.0/24".to_string()]);
    config.general.wg_interface = "".to_string();
    assert!(validate_config(&config).is_err());
}

#[test]
fn test_parse_cidr_network_bits_cleared() {
    let (network, _) = parse_cidr("192.168.1.100/24").unwrap();
    assert_eq!(network, u32::from_be_bytes([192, 168, 1, 0]));
    let (network, _) = parse_cidr("10.0.0.255/8").unwrap();
    assert_eq!(network, u32::from_be_bytes([10, 0, 0, 0]));
}

#[test]
fn parse_cidr_error_kinds() {
    assert_eq!(parse_cidr("invalid"), Err(CidrError::Format));
    assert_eq!(parse_cidr("1.2.3.4/5/6"), Err(CidrError::Format));
    assert_eq!(parse_cidr("999.999.999.999/24"), Err(CidrError::Octet));
    assert_eq!(parse_cidr("1.2.3/24"), Err(CidrError::Octet));
    assert_eq!(parse_cidr("01.2.3.4/24"), Err(CidrError::Octet));
    assert_eq!(parse_cidr("1.2.3.4/"), Err(CidrError::Prefix));
    assert_eq!(parse_cidr("1.2.3.4/33"), Err(CidrError::Prefix));
    assert_eq!(parse_cidr("1.2.3.4/x"), Err(CidrError::Prefix));
    assert_eq!(parse_cidr("1.2.3.4/+8"), Ok((0x0100_0000, 0xFF00_0000)));
}

#[test]
fn parsed_network_has_no_host_bits() {
    for text in ["192.168.1.100/24", "10.0.0.255/8", "172.31.255.255/12", "1.2.3.4/0", "9.9.9.9/32"] {
        let (network, mask) = parse_cidr(text).unwrap();
        assert_eq!(network & !mask, 0);
    }
}

#[test]
fn parsed_subnet_holds_same_prefix_only() {
    let s = parse_cidr("192.168.4.7/22").unwrap();
    assert!(contains(u32::from_be_bytes([192, 168, 7, 200]), &[s]));
    assert!(contains(u32::from_be_bytes([192, 168, 4, 0]), &[s]));
    assert!(!contains(u32::from_be_bytes([192, 168, 8, 0]), &[s]));
    assert!(!contains(u32::from_be_bytes([64, 168, 4, 7]), &[s]));
}

#[test]
fn match_all_subnet_and_sentinel_slots() {
    let all = parse_cidr("0.0.0.0/0").unwrap();
    assert!(contains(0x0A00_0001, &[all]));
    let sentinel = (0xFFFF_FFFF, 0xFFFF_FFFF);
    assert!(!is_target_subnet(0xFFFF_FFFF, &[sentinel, sentinel]));
    assert!(is_target_subnet(0x0A00_0001, &[sentinel, all]));
}

#[test]
fn ip_in_subnets_reports_first_bad_cidr() {
    let subnets = vec!["10.0.0.0/8".to_string(), "bad".to_string()];
    assert_eq!(ip_in_subnets(0x0A01_0203, &subnets), Ok(true));
    assert_eq!(ip_in_subnets(0x0B01_0203, &subnets), Err(CidrError::Format));
}

#[test]
fn config_error_variants() {
    let mut c = base_config(vec!["10.0.0.0/8".to_string()]);
    c.general.exclude_ssids = vec!["TestSSID".to_string()];
    assert_eq!(validate_config(&c), Err(ConfigError::SsidInBothLists));
    let mut c = base_config(vec!["10.0.0.0/8".to_string()]);
    c.general.wg_interface = String::new();
    assert_eq!(validate_config(&c), Err(ConfigError::EmptyInterface));
    let mut c = base_config(vec!["10.0.0.0/8".to_string()]);
    c.general.idle_timeout = 0;
    assert_eq!(validate_config(&c), Err(ConfigError::ZeroIdleTimeout));
    assert_eq!(validate_config(&base_config(vec![])), Err(ConfigError::NoSubnets));
    let many = (0..17).map(|i| format!("10.{}.0.0/24", i)).collect();
    assert_eq!(validate_config(&base_config(many)), Err(ConfigError::TooManySubnets));
    let bad = vec!["10.0.0.0/8".to_string(), "10.0.0.0/40".to_string()];
    assert_eq!(validate_config(&base_config(bad)), Err(ConfigError::InvalidCidr(CidrError::Prefix)));
}

#[test]
fn default_values() {
    assert_eq!(wg_ondemand::types::default_idle_timeout(), 300);
    assert_eq!(wg_ondemand::types::default_log_level(), "info");
}
