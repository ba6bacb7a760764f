use cfd::cf_ips::{read_ipv4, read_u8, CFIPs};

fn chars(s: &str) -> Vec<char> {
    s.chars().collect()
}

#[test]
fn address_inside_range() {
    assert!(CFIPs::check_ip_in_cidr("131.0.72.1", "131.0.72.0/22"));
    assert!(CFIPs::check_ip_in_cidr("131.0.75.255", "131.0.72.0/22"));
}

#[test]
fn address_past_the_prefix_boundary() {
    assert!(!CFIPs::check_ip_in_cidr("131.0.76.1", "131.0.72.0/22"));
    assert!(!CFIPs::check_ip_in_cidr("131.0.71.255", "131.0.72.0/22"));
    assert!(!CFIPs::check_ip_in_cidr("132.0.72.1", "131.0.72.0/22"));
}

#[test]
fn prefix_lengths_at_the_ends() {
    assert!(CFIPs::check_ip_in_cidr("9.9.9.9", "1.2.3.4/0"));
    assert!(CFIPs::check_ip_in_cidr("1.2.3.4", "1.2.3.4/32"));
    assert!(!CFIPs::check_ip_in_cidr("1.2.3.5", "1.2.3.4/32"));
    assert!(CFIPs::check_ip_in_cidr("1.2.3.5", "1.2.3.4/31"));
    assert!(CFIPs::check_ip_in_cidr("128.0.0.0", "255.0.0.0/1"));
    assert!(!CFIPs::check_ip_in_cidr("127.0.0.0", "255.0.0.0/1"));
}

#[test]
fn prefix_beyond_32_compares_every_bit() {
    assert!(CFIPs::check_ip_in_cidr("1.2.3.4", "1.2.3.4/40"));
    assert!(!CFIPs::check_ip_in_cidr("1.2.3.5", "1.2.3.4/40"));
}

#[test]
fn unreadable_prefix_counts_as_zero() {
    assert!(CFIPs::check_ip_in_cidr("9.9.9.9", "1.2.3.4/x"));
    assert!(CFIPs::check_ip_in_cidr("9.9.9.9", "1.2.3.4/"));
    assert!(CFIPs::check_ip_in_cidr("9.9.9.9", "1.2.3.4/256"));
}

#[test]
fn malformed_range_holds_nothing() {
    assert!(!CFIPs::check_ip_in_cidr("1.2.3.4", ""));
    assert!(!CFIPs::check_ip_in_cidr("1.2.3.4", "1.2.3.4"));
    assert!(!CFIPs::check_ip_in_cidr("1.2.3.4", "1.2.3/8"));
    assert!(!CFIPs::check_ip_in_cidr("1.2.3.4", "1.2.3.4.5/8"));
    assert!(!CFIPs::check_ip_in_cidr("1.2.3.4", "1.2.3.x/0"));
    assert!(!CFIPs::check_ip_in_cidr("1.2.3.4", "1.2.3.256/0"));
    assert!(!CFIPs::check_ip_in_cidr("1.2.3.4", "2400:cb00::/32"));
}

#[test]
fn malformed_address_is_in_no_range() {
    assert!(!CFIPs::check_ip_in_cidr("", "1.2.3.4/0"));
    assert!(!CFIPs::check_ip_in_cidr("1.2.3", "1.2.3.4/0"));
    assert!(!CFIPs::check_ip_in_cidr("1.2.3.4.5", "1.2.3.4/0"));
    assert!(!CFIPs::check_ip_in_cidr("a.b.c.d", "1.2.3.4/0"));
    assert!(!CFIPs::check_ip_in_cidr("1.2.3.999", "1.2.3.4/0"));
    assert!(!CFIPs::check_ip_in_cidr("::ffff:1.2.3.4", "1.2.3.4/0"));
    assert!(!CFIPs::check_ip_in_cidr("2606:4700::1111", "1.2.3.4/0"));
}

#[test]
fn octets_are_read() {
    assert_eq!(read_ipv4(&chars("131.0.72.1")), Some(vec![131, 0, 72, 1]));
    assert_eq!(read_ipv4(&chars("255.255.255.255")), Some(vec![255, 255, 255, 255]));
    assert_eq!(read_ipv4(&chars("001.02.3.4")), Some(vec![1, 2, 3, 4]));
    assert_eq!(read_ipv4(&chars("1.2.3.")), None);
    assert_eq!(read_ipv4(&chars("+1.2.3.4")), None);
    assert_eq!(read_ipv4(&chars("1.2. 3.4")), None);
}

#[test]
fn prefix_number_agrees_with_std() {
    let inputs = [
        "", "0", "7", "22", "32", "033", "255", "256", "300", "+", "+5", "++5", "-5", "-0", " 5",
        "5 ", "1e1", "0x10", "00000000000000000000255", "99999999999999999999999", "٣",
    ];
    for input in inputs {
        assert_eq!(read_u8(&chars(input)), input.parse::<u8>().ok());
    }
}

#[test]
fn loaded_ranges_are_searched() {
    let v4 = "173.245.48.0/20\n103.21.244.0/22\n131.0.72.0/22\n104.16.0.0/13";
    let v6 = "2400:cb00::/32\n2606:4700::/32";
    let ips = CFIPs::load(v4.to_string(), v6.to_string());
    assert_eq!(ips.ipsv4.len(), 4);
    assert_eq!(ips.ipsv4[2], "131.0.72.0/22");
    assert_eq!(ips.ipsv6, vec!["2400:cb00::/32", "2606:4700::/32"]);
    assert!(ips.check_ip_v4("131.0.72.1"));
    assert!(ips.check_ip_v4("104.23.255.255"));
    assert!(!ips.check_ip_v4("104.24.0.0"));
    assert!(!ips.check_ip_v4("131.0.76.1"));
    assert!(!ips.check_ip_v4("8.8.8.8"));
}

#[test]
fn no_range_holds_no_address() {
    let ips = CFIPs { ipsv4: vec![], ipsv6: vec![] };
    assert!(!ips.check_ip_v4("1.2.3.4"));
    let blank = CFIPs::load(String::new(), String::new());
    assert_eq!(blank.ipsv4, vec![""]);
    assert!(!blank.check_ip_v4("1.2.3.4"));
}
