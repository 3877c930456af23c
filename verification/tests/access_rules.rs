use file_sync::access::AccessControl;
use file_sync::ip_filter::{parse_ipv4, IpFilter, PeerAddr};

fn names(v: &[&str]) -> Vec<String> {
    v.iter().map(|s| s.to_string()).collect()
}

fn some(s: &str) -> Option<String> {
    Some(s.to_string())
}

#[test]
fn everyone_may_change_everything_without_a_password() {
    assert!(AccessControl::check(&names(&["a"]), &None, &None));
    assert!(AccessControl::check(&names(&["a"]), &some("x"), &some("")));
}

#[test]
fn the_password_is_needed_outside_the_public_directory() {
    let password = some("SECRET-REDACTED");
    assert!(!AccessControl::check(&names(&["a"]), &None, &password));
    assert!(!AccessControl::check(&names(&["a"]), &some("x"), &password));
    assert!(AccessControl::check(&names(&["a"]), &password, &password));
    assert!(!AccessControl::check(&names(&[]), &None, &password));
}

#[test]
fn the_public_directory_goes_by_the_first_name() {
    let password = some("SECRET-REDACTED");
    assert!(AccessControl::check(&names(&["Public"]), &None, &password));
    assert!(AccessControl::check(&names(&["Public", "a"]), &None, &password));
    assert!(!AccessControl::check(&names(&["Publicx"]), &None, &password));
    assert!(!AccessControl::check(&names(&["public", "a"]), &None, &password));
    assert!(!AccessControl::check(&names(&["a", "Public"]), &None, &password));
}

fn v4(s: &str) -> PeerAddr {
    PeerAddr::V4(parse_ipv4(s).unwrap())
}

#[test]
fn addresses_are_read() {
    assert_eq!(parse_ipv4("0.0.0.0"), Some(0));
    assert_eq!(parse_ipv4("80.94.95.1"), Some(0x505e5f01));
    assert_eq!(parse_ipv4("255.255.255.255"), Some(u32::MAX));
    for bad in ["", "1.2.3", "1.2.3.4.5", "256.0.0.1", "1.2.3.", "01.2.3.4", "1.2.3.+4", "a.b.c.d"] {
        assert_eq!(parse_ipv4(bad), None, "{}", bad);
    }
}

#[test]
fn rules_are_read() {
    assert_eq!(IpFilter::parse_cidr("80.94.95.7/24"), Some((0x505e5f00, 0xffffff00)));
    assert_eq!(IpFilter::parse_cidr("1.2.3.4"), Some((0x01020304, 0xffffffff)));
    assert_eq!(IpFilter::parse_cidr("1.2.3.4/0"), Some((0, 0)));
    assert_eq!(IpFilter::parse_cidr("1.2.3.4/32"), Some((0x01020304, 0xffffffff)));
    assert_eq!(IpFilter::parse_cidr(""), None);
    assert_eq!(IpFilter::parse_cidr("1.2.3.4/x"), None);
    assert_eq!(IpFilter::parse_cidr("1.2.3/8"), None);
}

#[test]
fn prefixes_that_do_not_fit_are_told() {
    assert!(IpFilter::prefix_fits("1.2.3.4/32"));
    assert!(!IpFilter::prefix_fits("1.2.3.4/33"));
    assert!(IpFilter::prefixes_fit("1.2.3.0/24, 10.0.0.0/8"));
    assert!(!IpFilter::prefixes_fit("1.2.3.0/24,10.0.0.0/99"));
}

#[test]
fn peers_are_refused_by_the_rules() {
    let filter = IpFilter::from_env(&some("80.94.95.0/24, 192.168.1.0/24,,x, 10.1.2.3"));
    assert!(filter.is_blocked(&v4("80.94.95.200")));
    assert!(filter.is_blocked(&v4("192.168.1.1")));
    assert!(filter.is_blocked(&v4("10.1.2.3")));
    assert!(!filter.is_blocked(&v4("10.1.2.4")));
    assert!(!filter.is_blocked(&v4("80.94.96.1")));
}

#[test]
fn nobody_is_refused_without_rules() {
    assert!(!IpFilter::from_env(&None).is_blocked(&v4("1.2.3.4")));
    assert!(!IpFilter::from_env(&some("")).is_blocked(&v4("1.2.3.4")));
}

#[test]
fn mapped_addresses_count_as_the_addresses() {
    let filter = IpFilter::from_env(&some("80.94.95.0/24"));
    assert!(filter.is_blocked(&PeerAddr::V6(0xffff_505e_5f01)));
    assert!(!filter.is_blocked(&PeerAddr::V6(0x505e_5f01)));
    assert!(!filter.is_blocked(&PeerAddr::V6(0x1_ffff_505e_5f01)));
    let all = IpFilter::from_env(&some("0.0.0.0/0"));
    assert!(all.is_blocked(&v4("9.9.9.9")));
    assert!(!all.is_blocked(&PeerAddr::V6(1)));
}
