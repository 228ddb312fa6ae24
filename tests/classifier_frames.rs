use wg_ondemand::classifier::{classify_frame, subnet_map_slots};
use wg_ondemand::config::CidrError;

fn frame(dest: [u8; 4], proto: u8, transport: &[u8]) -> Vec<u8> {
    let mut f = vec![0u8; 12];
    f.extend_from_slice(&[0x08, 0x00]);
    let mut ip = vec![0u8; 20];
    ip[0] = 0x45;
    ip[9] = proto;
    ip[16..20].copy_from_slice(&dest);
    f.extend_from_slice(&ip);
    f.extend_from_slice(transport);
    f
}

fn slots(cidrs: &[&str]) -> Vec<(u32, u32)> {
    let v: Vec<String> = cidrs.iter().map(|s| s.to_string()).collect();
    subnet_map_slots(&v).unwrap()
}

#[test]
fn slots_fill_with_sentinel() {
    let s = slots(&["10.0.0.0/24", "0.0.0.0/0"]);
    assert_eq!(s.len(), 16);
    assert_eq!(s[0], (0x0A00_0000, 0xFFFF_FF00));
    assert_eq!(s[1], (0, 0));
    for slot in &s[2..] {
        assert_eq!(*slot, (0xFFFF_FFFF, 0xFFFF_FFFF));
    }
}

#[test]
fn slots_take_at_most_sixteen_and_report_bad_cidr() {
    let many: Vec<String> = (0..20).map(|i| format!("10.{}.0.0/16", i)).collect();
    let s = subnet_map_slots(&many).unwrap();
    assert_eq!(s.len(), 16);
    assert_eq!(s[15], (0x0A0F_0000, 0xFFFF_0000));
    let bad = vec!["10.0.0.0/8".to_string(), "10.0.0/8".to_string()];
    assert_eq!(subnet_map_slots(&bad), Err(CidrError::Octet));
}

#[test]
fn tcp_frame_to_target_is_recorded() {
    let mut tcp = vec![0u8; 20];
    tcp[2] = 0x01;
    tcp[3] = 0xBB;
    let e = classify_frame(&frame([10, 0, 0, 9], 6, &tcp), &slots(&["10.0.0.0/24"]), 77).unwrap();
    assert_eq!(e.timestamp, 77);
    assert_eq!(e.dest_ip, 0x0A00_0009);
    assert_eq!(e.dest_port, 443);
    assert_eq!(e.protocol, 6);
    assert_eq!(e._padding, 0);
}

#[test]
fn udp_and_other_protocols() {
    let s = slots(&["10.0.0.0/24"]);
    let mut udp = vec![0u8; 8];
    udp[2] = 0x00;
    udp[3] = 0x35;
    assert_eq!(classify_frame(&frame([10, 0, 0, 1], 17, &udp), &s, 0).unwrap().dest_port, 53);
    let icmp = classify_frame(&frame([10, 0, 0, 1], 1, &[]), &s, 0).unwrap();
    assert_eq!(icmp.dest_port, 0);
    assert_eq!(icmp.protocol, 1);
}

#[test]
fn frames_not_recorded() {
    let s = slots(&["10.0.0.0/24"]);
    assert!(classify_frame(&frame([10, 0, 1, 9], 1, &[]), &s, 0).is_none());
    let mut arp = frame([10, 0, 0, 9], 1, &[]);
    arp[12] = 0x08;
    arp[13] = 0x06;
    assert!(classify_frame(&arp, &s, 0).is_none());
    assert!(classify_frame(&frame([10, 0, 0, 9], 6, &[0u8; 10]), &s, 0).is_none());
    assert!(classify_frame(&[0u8; 20], &s, 0).is_none());
}
