use rahgozar::address::{is_internal_ip, parse_ip};
use rahgozar::connect::{connect_address, parse_connect_addr};
use rahgozar::destination::destination_allowed;

fn list(items: &[&str]) -> Vec<String> {
    items.iter().map(|s| s.to_string()).collect()
}

#[test]
fn destination_allowed_empty_list_allows_public_destinations() {
    let s = list(&[]);
    assert!(destination_allowed(&s, "anything.example.com"));
    assert!(destination_allowed(&s, "8.8.8.8"));
    assert!(destination_allowed(&s, "1.1.1.1"));
    assert!(destination_allowed(&s, "142.250.80.46"));
}

#[test]
fn destination_allowed_empty_list_blocks_internal_ipv4_literals() {
    let s = list(&[]);
    for bad in [
        "127.0.0.1",
        "10.0.0.5",
        "172.16.0.1",
        "172.31.255.254",
        "192.168.1.1",
        "169.254.169.254",
        "169.254.0.1",
        "0.0.0.0",
        "100.64.0.1",
        "255.255.255.255",
    ] {
        assert!(
            !destination_allowed(&s, bad),
            "expected the guard to reject {bad}"
        );
    }
}

#[test]
fn destination_allowed_empty_list_blocks_internal_ipv6_literals() {
    let s = list(&[]);
    for bad in [
        "::1",
        "::",
        "fe80::1",
        "fc00::1",
        "fd00::1",
        "::ffff:127.0.0.1",
        "::ffff:192.168.1.1",
    ] {
        assert!(
            !destination_allowed(&s, bad),
            "expected the guard to reject {bad}"
        );
    }
}

#[test]
fn destination_allowed_explicit_internal_ip_in_allowlist_passes() {
    let s = list(&["10.0.0.5", "127.0.0.1"]);
    assert!(destination_allowed(&s, "10.0.0.5"));
    assert!(destination_allowed(&s, "127.0.0.1"));
    assert!(!destination_allowed(&s, "192.168.1.1"));
    assert!(!destination_allowed(&s, "evil.example.com"));
}

#[test]
fn destination_allowed_exact_match() {
    let s = list(&["example.com", "google.com"]);
    assert!(destination_allowed(&s, "example.com"));
    assert!(destination_allowed(&s, "google.com"));
    assert!(!destination_allowed(&s, "sub.example.com"));
    assert!(!destination_allowed(&s, "google.com.evil.com"));
}

#[test]
fn destination_allowed_dot_prefix_subdomain_match() {
    let s = list(&[".example.com"]);
    assert!(destination_allowed(&s, "example.com"));
    assert!(destination_allowed(&s, "api.example.com"));
    assert!(destination_allowed(&s, "deep.nested.example.com"));
    assert!(!destination_allowed(&s, "evilexample.com"));
    assert!(!destination_allowed(&s, "anotherexample.com"));
}

#[test]
fn destination_allowed_is_case_insensitive_and_trims_dot() {
    let s = list(&["Example.COM"]);
    assert!(destination_allowed(&s, "example.com"));
    assert!(destination_allowed(&s, "EXAMPLE.COM"));
    assert!(destination_allowed(&s, "example.com."));
}

#[test]
fn destination_allowed_rejects_unlisted() {
    let s = list(&["example.com"]);
    assert!(!destination_allowed(&s, "evil.com"));
    assert!(!destination_allowed(&s, "8.8.8.8"));
}

#[test]
fn destination_allowed_skips_blank_entries() {
    let s = list(&["", "   ", "example.com"]);
    assert!(destination_allowed(&s, "example.com"));
    assert!(!destination_allowed(&s, "anything.else"));
}

#[test]
fn a_longer_list_never_refuses_more() {
    let short = list(&["example.com"]);
    let long = list(&["example.com", ".other.org"]);
    for host in ["example.com", "x.other.org", "evil.com"] {
        assert!(!destination_allowed(&short, host) || destination_allowed(&long, host));
    }
}

#[test]
fn addresses_are_read_as_literals() {
    for good in [
        "1.2.3.4",
        "::",
        "::1",
        "fe80::1",
        "1:2:3:4:5:6:7:8",
        "1:2:3:4:5:6:7::",
        "::ffff:1.2.3.4",
        "::1.2.3.4",
        "1:2:3:4:5:6:1.2.3.4",
    ] {
        assert!(parse_ip(good).is_some(), "{good}");
    }
    for bad in [
        "01.2.3.4",
        "1.2.3",
        "256.1.1.1",
        "1:2:3:4:5:6:7:8:9",
        ":::",
        "1::2::3",
        "",
        "g::1",
        "12345::",
        "1.2.3.4.5",
        "example.com",
    ] {
        assert!(parse_ip(bad).is_none(), "{bad}");
    }
    assert!(is_internal_ip(&parse_ip("192.168.0.1").unwrap()));
    assert!(!is_internal_ip(&parse_ip("2606:4700::1111").unwrap()));
}

#[test]
fn connect_payload_round_trips() {
    assert_eq!(connect_address("example.com", 443), "example.com:443");
    assert_eq!(
        parse_connect_addr(b"example.com:443"),
        Some(("example.com".to_string(), 443))
    );
    assert_eq!(
        parse_connect_addr(connect_address("a.b", 65535).as_bytes()),
        Some(("a.b".to_string(), 65535))
    );
    assert_eq!(parse_connect_addr(b"no-port"), None);
    assert_eq!(parse_connect_addr(b"host:99999"), None);
    assert_eq!(parse_connect_addr(b"\xff\xfe:80"), None);
}
