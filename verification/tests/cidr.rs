use onebox_sysproxy_rs::utils::ipv4_cidr_to_wildcard;
use onebox_sysproxy_rs::Error;

#[test]
fn test_ipv4_cidr_class_a() {
    assert_eq!(ipv4_cidr_to_wildcard("127.0.0.1/8").unwrap(), vec!["127.*"]);
}

#[test]
fn test_ipv4_cidr_class_c() {
    assert_eq!(
        ipv4_cidr_to_wildcard("192.168.1.0/24").unwrap(),
        vec!["192.168.1.*"]
    );
}

#[test]
fn test_ipv4_cidr_class_b() {
    assert_eq!(
        ipv4_cidr_to_wildcard("10.0.0.0/16").unwrap(),
        vec!["10.0.*"]
    );
}

#[test]
fn cidr_full_prefix_is_the_address() {
    assert_eq!(ipv4_cidr_to_wildcard("192.168.1.7/32").unwrap(), vec!["192.168.1.7"]);
}

#[test]
fn cidr_zero_prefix_matches_everything() {
    assert_eq!(ipv4_cidr_to_wildcard("8.8.8.8/0").unwrap(), vec!["*"]);
}

#[test]
fn cidr_partial_octet_lists_each_value() {
    assert_eq!(
        ipv4_cidr_to_wildcard("10.0.16.0/20").unwrap(),
        (16..32).map(|j| format!("10.0.{j}.*")).collect::<Vec<_>>()
    );
}

#[test]
fn cidr_partial_first_octet() {
    assert_eq!(ipv4_cidr_to_wildcard("127.0.0.1/7").unwrap(), vec!["126.*", "127.*"]);
}

#[test]
fn cidr_partial_last_octet_has_no_star() {
    assert_eq!(
        ipv4_cidr_to_wildcard("192.168.1.130/30").unwrap(),
        vec!["192.168.1.128", "192.168.1.129", "192.168.1.130", "192.168.1.131"]
    );
}

#[test]
fn cidr_accepts_plus_sign_and_leading_zeros() {
    assert_eq!(ipv4_cidr_to_wildcard("010.+1.0.0/+16").unwrap(), vec!["10.1.*"]);
}

#[test]
fn cidr_errors_hold_the_text() {
    for bad in [
        "10.0.0.0",
        "10.0.0.0/33",
        "10.0.0/8",
        "10.0.0.0.0/8",
        "10.0.0.256/8",
        "10.0.0.-1/8",
        "10.0.0.0/",
        "10.0.0.0/-8",
        "a.b.c.d/8",
        "10.0.0.0/8/8",
    ] {
        assert_eq!(ipv4_cidr_to_wildcard(bad), Err(Error::ParseStr(bad.to_string())), "{bad}");
    }
}

#[test]
fn host_bits_are_ignored() {
    assert_eq!(ipv4_cidr_to_wildcard("127.0.0.1/8"), ipv4_cidr_to_wildcard("127.255.3.9/8"));
    assert_eq!(ipv4_cidr_to_wildcard("10.1.17.3/20"), ipv4_cidr_to_wildcard("10.1.31.255/20"));
}
