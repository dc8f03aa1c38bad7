//! Client subnets: masking, the wire form, and the cache bucket.
use std::collections::hash_map::DefaultHasher;
use std::hash::{Hash, Hasher};

use hickory_proto::rr::rdata::opt::{ClientSubnet, EdnsCode, EdnsOption};
use hickory_proto::serialize::binary::BinDecodable;
use purge_warden::client_subnet::{mask_octets, AddressFamily, EcsError, EdnsClientSubnet};
use purge_warden::net::{parse_v4, parse_v6, IpAddr};

fn ip(text: &str) -> IpAddr {
    match parse_v4(text) {
        Some(v4) => IpAddr::V4(v4),
        None => IpAddr::V6(parse_v6(text).unwrap()),
    }
}

#[test]
fn roundtrip_v4_24() {
    let ecs = EdnsClientSubnet::new(ip("192.168.1.50"), 24).unwrap();
    let bytes = ecs.wire();
    let decoded = ClientSubnet::from_bytes(&bytes).expect("decode");
    assert_eq!(decoded.source_prefix(), 24);
    assert_eq!(decoded.scope_prefix(), 0);
    assert_eq!(decoded.addr().to_string(), "192.168.1.0");
}

#[test]
fn roundtrip_v6_56() {
    let ecs = EdnsClientSubnet::new(ip("2001:db8:abcd:ef01::1"), 56).unwrap();
    let bytes = ecs.wire();
    let decoded = ClientSubnet::from_bytes(&bytes).expect("decode");
    assert_eq!(decoded.source_prefix(), 56);
    assert_eq!(decoded.scope_prefix(), 0);
    assert_eq!(decoded.addr().to_string(), "2001:db8:abcd:ef00::");
}

#[test]
fn anonymous_v4_emits_zero_address_bytes() {
    let ecs = EdnsClientSubnet::anonymous(AddressFamily::V4);
    let bytes = ecs.wire();
    assert_eq!(bytes, vec![0x00, 0x01, 0x00, 0x00]);
}

#[test]
fn anonymous_v6_emits_zero_address_bytes() {
    let ecs = EdnsClientSubnet::anonymous(AddressFamily::V6);
    let bytes = ecs.wire();
    assert_eq!(bytes, vec![0x00, 0x02, 0x00, 0x00]);
}

#[test]
fn family_invalid_decode_error() {
    let bytes = vec![0x00, 0x03, 0x00, 0x00];
    assert!(ClientSubnet::from_bytes(&bytes).is_err());
}

#[test]
fn payload_truncated_decode_error() {
    let bytes = vec![0x00, 0x01];
    assert!(ClientSubnet::from_bytes(&bytes).is_err());
}

#[test]
fn scope_prefix_zero_on_query_construction() {
    let ecs = EdnsClientSubnet::new(ip("10.0.0.1"), 16).unwrap();
    assert_eq!(ecs.into_proto().scope_prefix, 0);
}

#[test]
fn address_truncation_non_multiple_of_8() {
    let ecs = EdnsClientSubnet::new(ip("192.168.31.250"), 20).unwrap();
    let bytes = ecs.wire();
    assert_eq!(bytes, vec![0x00, 0x01, 0x14, 0x00, 0xC0, 0xA8, 0x10]);
    assert_eq!(ecs.address(), ip("192.168.16.0"));
}

#[test]
fn oversize_prefix_v4_rejected() {
    let err = EdnsClientSubnet::new(ip("192.168.1.1"), 33).unwrap_err();
    assert_eq!(
        err,
        EcsError::PrefixOutOfRange {
            family: AddressFamily::V4,
            prefix: 33,
            max: 32,
        }
    );
}

#[test]
fn oversize_prefix_v6_rejected() {
    let err = EdnsClientSubnet::new(ip("2001:db8::1"), 129).unwrap_err();
    assert_eq!(
        err,
        EcsError::PrefixOutOfRange {
            family: AddressFamily::V6,
            prefix: 129,
            max: 128,
        }
    );
}

#[test]
fn byte_exact_wire_layout_v4_slash24() {
    let ecs = EdnsClientSubnet::new(ip("192.168.1.99"), 24).unwrap();
    let bytes = ecs.wire();
    assert_eq!(bytes, vec![0x00, 0x01, 0x18, 0x00, 0xC0, 0xA8, 0x01]);
}

#[test]
fn byte_exact_wire_layout_v6_slash32() {
    let ecs = EdnsClientSubnet::new(ip("2001:db8::1"), 32).unwrap();
    let bytes = ecs.wire();
    assert_eq!(bytes, vec![0x00, 0x02, 0x20, 0x00, 0x20, 0x01, 0x0D, 0xB8]);
}

#[test]
fn ecs_option_code_is_8() {
    let ecs = EdnsClientSubnet::anonymous(AddressFamily::V4);
    let opt = EdnsOption::Subnet(ClientSubnet::from_bytes(&ecs.wire()).expect("decode"));
    let code: EdnsCode = (&opt).into();
    assert_eq!(u16::from(code), 8);
}

#[test]
fn zero_prefix_emits_zero_address_bytes_for_specific_addr() {
    let ecs = EdnsClientSubnet::new(ip("203.0.113.42"), 0).unwrap();
    let bytes = ecs.wire();
    assert_eq!(bytes, vec![0x00, 0x01, 0x00, 0x00]);
}

#[test]
fn as_cache_prefix_zero_prefix_is_none() {
    let anon = EdnsClientSubnet::anonymous(AddressFamily::V4);
    assert!(anon.as_cache_prefix().is_none());
    let anon6 = EdnsClientSubnet::anonymous(AddressFamily::V6);
    assert!(anon6.as_cache_prefix().is_none());
}

#[test]
fn as_cache_prefix_v4_carries_masked_address_and_prefix() {
    let ecs = EdnsClientSubnet::new(ip("10.10.1.50"), 24).unwrap();
    let pre = ecs.as_cache_prefix().expect("non-zero prefix → Some");
    assert_eq!(pre.prefix, 24);
    assert_eq!(pre.addr, ip("10.10.1.0"));
}

#[test]
fn as_cache_prefix_v6_carries_masked_address_and_prefix() {
    let ecs = EdnsClientSubnet::new(ip("2001:db8:abcd:ef01::1"), 56).unwrap();
    let pre = ecs.as_cache_prefix().expect("non-zero prefix → Some");
    assert_eq!(pre.prefix, 56);
    assert_eq!(pre.addr, ip("2001:db8:abcd:ef00::"));
}

#[test]
fn ecs_prefix_two_different_subnets_are_not_equal() {
    let a = EdnsClientSubnet::new(ip("10.10.1.50"), 24)
        .unwrap()
        .as_cache_prefix()
        .unwrap();
    let b = EdnsClientSubnet::new(ip("10.10.2.50"), 24)
        .unwrap()
        .as_cache_prefix()
        .unwrap();
    assert_ne!(a, b);
}

#[test]
fn ecs_prefix_same_subnet_different_clients_collapse_to_equal() {
    let a = EdnsClientSubnet::new(ip("10.10.1.50"), 24)
        .unwrap()
        .as_cache_prefix()
        .unwrap();
    let b = EdnsClientSubnet::new(ip("10.10.1.99"), 24)
        .unwrap()
        .as_cache_prefix()
        .unwrap();
    assert_eq!(a, b);
}

#[test]
fn ecs_prefix_implements_hash_and_eq() {
    let a = EdnsClientSubnet::new(ip("10.10.1.50"), 24)
        .unwrap()
        .as_cache_prefix()
        .unwrap();
    let b = a;
    let mut ha = DefaultHasher::new();
    let mut hb = DefaultHasher::new();
    a.hash(&mut ha);
    b.hash(&mut hb);
    assert_eq!(ha.finish(), hb.finish());
    assert_eq!(a, b);
}

#[test]
fn masking_twice_changes_nothing() {
    for prefix in 0..=32u8 {
        let mut once = vec![0xff, 0xa5, 0x5a, 0x81];
        mask_octets(&mut once, prefix);
        let mut twice = once.clone();
        mask_octets(&mut twice, prefix);
        assert_eq!(once, twice);
        let mut coarser = vec![0xff, 0xa5, 0x5a, 0x81];
        mask_octets(&mut coarser, prefix / 2);
        mask_octets(&mut once, prefix / 2);
        assert_eq!(once, coarser);
    }
}

#[test]
fn families_have_their_widths() {
    assert_eq!(AddressFamily::V4.max_prefix(), 32);
    assert_eq!(AddressFamily::V6.max_prefix(), 128);
    let ecs = EdnsClientSubnet::new(ip("2001:db8::1"), 128).unwrap();
    assert_eq!(ecs.family(), AddressFamily::V6);
    assert_eq!(ecs.source_prefix(), 128);
    assert_eq!(ecs.address(), ip("2001:db8::1"));
}
