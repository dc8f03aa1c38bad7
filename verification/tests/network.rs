//! Addresses, ranges and names.
use std::str::FromStr;

use hickory_proto::rr::rdata::{A, AAAA};
use purge_warden::cidr::{any_contains, source_allowed, source_vouched, Cidr};
use purge_warden::domain::{
    canonicalize_domain, is_public_suffix, is_reserved_tld, is_underscore_service_name,
    is_valid_fqdn_syntax, label_count,
};
use purge_warden::net::{
    ipv4_to_ptr, ipv6_to_ptr, is_private_v4, is_private_v6, is_reserved_v4, is_reserved_v6,
    octets_of, parse_octet, parse_v4, parse_v6, to_mapped_v4, v4_to_text, v6_to_text, IpAddr,
};

fn ip(text: &str) -> IpAddr {
    match parse_v4(text) {
        Some(v4) => IpAddr::V4(v4),
        None => IpAddr::V6(parse_v6(text).unwrap()),
    }
}

#[test]
fn dotted_addresses_parse_as_everywhere() {
    for text in [
        "0.0.0.0", "1.2.3.4", "255.255.255.255", "256.1.1.1", "1.2.3", "1.2.3.4.5", "01.2.3.4",
        "1.2.3.", ".1.2.3", "1..2.3", "1.2.3.4 ", " 1.2.3.4", "a.b.c.d", "", "1.2.3.0004",
        "+1.2.3.4", "1.2.3.00",
    ] {
        let ours = parse_v4(text).map(|a| a.octets);
        let theirs = A::from_str(text).ok().map(|a| a.octets());
        assert_eq!(ours, theirs, "{text:?}");
    }
    assert_eq!(parse_octet("255"), Some(255));
    assert_eq!(parse_octet("256"), None);
    assert_eq!(parse_octet("007"), None);
    assert_eq!(v4_to_text(&parse_v4("10.0.200.1").unwrap()), "10.0.200.1");
}

#[test]
fn colon_addresses_parse_as_everywhere() {
    for text in [
        "::", "::1", "1::", "2001:db8::1", "2001:db8:0:0:0:0:0:1", "1:2:3:4:5:6:7:8",
        "1:2:3:4:5:6:7", "1:2:3:4:5:6:7:8:9", "::ffff:1.2.3.4", "::1.2.3.4", "1:2:3:4:5:6:1.2.3.4",
        "1:2:3:4:5:6:7:1.2.3.4", "1::2::3", ":::", ":", "", "12345::", "g::", "1:2:3:4:5:6:7::",
        "::2:3:4:5:6:7:8", "1::2:3:4:5:6:7:8", "fe80::1%eth0", "FFFF::ABCD", "1:", ":1", "::1.2.3",
        "0001::", "::1.2.3.4:5",
    ] {
        let ours = parse_v6(text).map(|a| octets_of(&IpAddr::V6(a)));
        let theirs = AAAA::from_str(text).ok().map(|a| a.octets().to_vec());
        assert_eq!(ours, theirs, "{text:?}");
    }
}

#[test]
fn colon_addresses_are_written_as_everywhere() {
    for text in [
        "::", "::1", "1::", "2001:db8::1", "1:0:0:2:0:0:0:3", "1:0:0:2:3:0:0:4", "1:2:3:4:5:6:7:8",
        "1:0:2:3:4:5:6:7", "fd00::", "::ffff:192.0.2.1", "::ffff:0:0", "::1.2.3.4", "0:0:1::",
        "ABCD:EF01::", "0:1:0:1:0:1:0:1", "1:2:3:4:5:6:0:0", "0:0:3:4:5:6:7:8",
    ] {
        let ours = v6_to_text(&parse_v6(text).unwrap());
        let theirs = AAAA::from_str(text).unwrap().to_string();
        assert_eq!(ours, theirs, "{text}");
    }
}

#[test]
fn mapped_addresses_hold_their_embedded_one() {
    let mapped = parse_v6("::ffff:192.0.2.7").unwrap();
    assert_eq!(to_mapped_v4(&mapped), parse_v4("192.0.2.7"));
    assert_eq!(to_mapped_v4(&parse_v6("::192.0.2.7").unwrap()), None);
    assert_eq!(to_mapped_v4(&parse_v6("fd00::1").unwrap()), None);
}

#[test]
fn addresses_are_classed() {
    for (text, reserved, private) in [
        ("10.1.2.3", false, true),
        ("172.16.0.1", false, true),
        ("172.32.0.1", false, false),
        ("192.168.9.9", false, true),
        ("8.8.8.8", false, false),
        ("0.0.0.0", true, false),
        ("127.0.0.1", true, false),
        ("255.255.255.255", true, false),
        ("224.0.0.1", true, false),
    ] {
        let v4 = parse_v4(text).unwrap();
        assert_eq!(is_reserved_v4(&v4), reserved, "{text}");
        assert_eq!(is_private_v4(&v4), private, "{text}");
    }
    for (text, reserved, private) in [
        ("::", true, false),
        ("::1", true, false),
        ("ff02::1", true, false),
        ("fd00::1", false, true),
        ("2001:db8::1", false, false),
    ] {
        let v6 = parse_v6(text).unwrap();
        assert_eq!(is_reserved_v6(&v6), reserved, "{text}");
        assert_eq!(is_private_v6(&v6), private, "{text}");
    }
}

#[test]
fn reverse_names_are_exact() {
    assert_eq!(ipv4_to_ptr(&parse_v4("192.0.2.7").unwrap()), "7.2.0.192.in-addr.arpa");
    assert_eq!(
        ipv6_to_ptr(&parse_v6("2001:db8::567:89ab").unwrap()),
        "b.a.9.8.7.6.5.0.0.0.0.0.0.0.0.0.0.0.0.0.0.0.0.0.8.b.d.0.1.0.0.2.ip6.arpa"
    );
}

#[test]
fn ranges_hold_what_agrees_with_their_prefix() {
    let net = Cidr::parse("10.1.0.0/16").unwrap();
    assert!(net.contains(&ip("10.1.255.255")));
    assert!(!net.contains(&ip("10.2.0.0")));
    assert!(!net.contains(&ip("::ffff:10.1.2.3")));
    assert!(any_contains(&[net.clone()], &ip("::ffff:10.1.2.3")));
    assert!(!net.contains(&ip("2001:db8::1")));
    assert!(Cidr::parse("0.0.0.0/0").unwrap().contains(&ip("203.0.113.9")));
    assert!(Cidr::parse("2001:db8::/33").unwrap().contains(&ip("2001:db8:7fff::1")));
    assert!(!Cidr::parse("2001:db8::/33").unwrap().contains(&ip("2001:db8:8000::1")));
    let single = Cidr::parse("10.0.0.1/32").unwrap();
    assert!(single.contains(&ip("10.0.0.1")) && !single.contains(&ip("10.0.0.0")));
    for bad in ["10.0.0.0/33", "::/129", "10.0.0.0/", "/8", "10.0.0.0/8/8", "x/8", ""] {
        assert_eq!(Cidr::parse(bad), None, "{bad:?}");
    }
    assert_eq!(Cidr::new(ip("10.0.0.0"), 33), None);
}

#[test]
fn a_list_of_ranges_admits_by_any_of_them() {
    let acl = [Cidr::parse("10.0.0.0/8").unwrap(), Cidr::parse("fd00::/8").unwrap()];
    assert!(any_contains(&acl, &ip("10.9.9.9")));
    assert!(any_contains(&acl, &ip("fdab::1")));
    assert!(!any_contains(&acl, &ip("192.0.2.1")));
    assert!(source_allowed(&ip("192.0.2.1"), None));
    assert!(source_allowed(&ip("192.0.2.1"), Some(&[])));
    assert!(!source_allowed(&ip("192.0.2.1"), Some(&acl)));
    assert!(source_allowed(&ip("10.0.0.1"), Some(&acl)));
    assert!(source_vouched(&ip("10.0.0.1"), Some(&acl)));
    assert!(!source_vouched(&ip("192.0.2.1"), Some(&acl)));
    assert!(!source_vouched(&ip("192.0.2.1"), None));
}

#[test]
fn names_are_canonical_once_and_for_all() {
    for (text, canonical) in [("Example.COM.", "example.com"), ("a.b", "a.b"), (".", ""), ("", "")] {
        let once = canonicalize_domain(text);
        assert_eq!(once, canonical, "{text:?}");
        assert_eq!(canonicalize_domain(&once), once);
    }
    assert_eq!(label_count("a.b.c"), 3);
    assert_eq!(label_count(""), 0);
}

#[test]
fn names_are_judged_by_their_syntax() {
    assert!(is_valid_fqdn_syntax("printer.lan"));
    assert!(!is_valid_fqdn_syntax("-bad.lan"));
    assert!(!is_valid_fqdn_syntax("bad..lan"));
    assert!(!is_valid_fqdn_syntax(&format!("{}.lan", "a".repeat(64))));
    assert!(is_valid_fqdn_syntax(&format!("{}.lan", "a".repeat(63))));
    assert!(is_underscore_service_name("_dmarc.example.com"));
    assert!(!is_underscore_service_name("dmarc.example.com"));
    assert!(is_public_suffix("com"));
    assert!(!is_public_suffix("example.com"));
    assert!(is_reserved_tld("thing.localhost"));
    assert!(!is_reserved_tld("thing.lan"));
}
