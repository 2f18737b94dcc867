use kercat::addr::{filter_family, matches_family, resolve, CandidateAddress, IpAddress};
use kercat::errors::ResolutionError;
use kercat::AddressType;

fn v4(n: u32) -> IpAddress {
    IpAddress::V4(n)
}

fn v6(n: u128) -> IpAddress {
    IpAddress::V6(n)
}

#[test]
fn pairing_order_ports_vary_fastest() {
    let a = v4(0x0a000001);
    let b = v4(0x0a000002);
    let candidates = resolve(&vec![a, b], &vec![80, 81], AddressType::IP).unwrap();
    assert_eq!(
        candidates,
        vec![
            CandidateAddress { ip: a, port: 80 },
            CandidateAddress { ip: a, port: 81 },
            CandidateAddress { ip: b, port: 80 },
            CandidateAddress { ip: b, port: 81 },
        ]
    );
}

#[test]
fn family_filter_keeps_order() {
    let ips = vec![v6(1), v4(2), v6(3), v4(4)];
    assert_eq!(filter_family(&ips, AddressType::IPv4), vec![v4(2), v4(4)]);
    assert_eq!(filter_family(&ips, AddressType::IPv6), vec![v6(1), v6(3)]);
    assert_eq!(filter_family(&ips, AddressType::IP), ips);
}

#[test]
fn matches_family_cases() {
    assert!(matches_family(v4(1), AddressType::IP));
    assert!(matches_family(v6(1), AddressType::IP));
    assert!(matches_family(v4(1), AddressType::IPv4));
    assert!(!matches_family(v6(1), AddressType::IPv4));
    assert!(matches_family(v6(1), AddressType::IPv6));
    assert!(!matches_family(v4(1), AddressType::IPv6));
}

#[test]
fn resolve_no_addresses_is_an_error() {
    let r = resolve(&Vec::new(), &vec![80], AddressType::IP);
    assert_eq!(r, Err(ResolutionError::NoAddresses));
}

#[test]
fn resolve_family_mismatch_is_an_error() {
    let r = resolve(&vec![v6(1)], &vec![80], AddressType::IPv4);
    assert_eq!(r, Err(ResolutionError::FamilyMismatch));
    let r = resolve(&vec![v4(1)], &vec![80], AddressType::IPv6);
    assert_eq!(r, Err(ResolutionError::FamilyMismatch));
}

#[test]
fn resolve_no_ports_is_an_error() {
    let r = resolve(&vec![v4(1)], &Vec::new(), AddressType::IP);
    assert_eq!(r, Err(ResolutionError::NoPorts));
}

#[test]
fn resolve_filters_before_pairing() {
    let candidates = resolve(&vec![v6(9), v4(7)], &vec![443], AddressType::IPv4).unwrap();
    assert_eq!(candidates, vec![CandidateAddress { ip: v4(7), port: 443 }]);
}
