use std::time::Duration;

use fastping::addr::IpAddr;
use fastping::packet::{build_echo_request, build_echov6_request};
use fastping::ping::{wait_phase_over, Ping, PingResult, ReceivedPing, Targets};

fn one_target(addr: IpAddr, target: Ping) -> Targets {
    let mut t = Targets::new();
    t.insert(target);
    assert_eq!(t.get(0).get_addr(), addr);
    t
}

fn reply(addr: IpAddr, identifier: u16, seq: u16) -> ReceivedPing {
    ReceivedPing {
        addr,
        identifier,
        sequence_number: seq,
        rtt: Duration::from_millis(12),
        ttl: 64,
    }
}

#[test]
fn test_ping() {
    let mut p = Ping::new(IpAddr::v4(127, 0, 0, 1));
    assert_eq!(p.get_sequence_number(), 0);
    assert!(p.get_identifier() > 0);

    p.increment_sequence_number();
    assert_eq!(p.get_sequence_number(), 1);
}

#[test]
fn v4_constructor_packs_octets() {
    assert_eq!(IpAddr::v4(127, 0, 0, 1), IpAddr::V4(0x7f00_0001));
    assert_eq!(IpAddr::v4(10, 0, 0, 1), IpAddr::V4(0x0a00_0001));
}

#[test]
fn ipv6_target_has_zero_identifier() {
    let p = Ping::new(IpAddr::V6(1));
    assert_eq!(p.get_identifier(), 0);
    assert_eq!(p.get_sequence_number(), 0);
    assert!(!p.is_seen());
}

#[test]
fn increment_returns_new_value_and_wraps() {
    let mut p = Ping::new_with_seq(IpAddr::v4(10, 0, 0, 1), 0);
    assert_eq!(p.increment_sequence_number(), 1);
    assert_eq!(p.increment_sequence_number(), 2);
    let mut q = Ping::new_with_seq(IpAddr::v4(10, 0, 0, 1), 0xffff);
    assert_eq!(q.increment_sequence_number(), 0);
    assert_eq!(q.get_sequence_number(), 0);
}

#[test]
fn sequence_counts_rounds() {
    let a = IpAddr::v4(10, 0, 0, 1);
    let mut t = Targets::new();
    t.insert(Ping::new(a));
    t.insert(Ping::new(IpAddr::V6(5)));
    for _ in 0..5 {
        t.begin_round(64);
    }
    assert_eq!(t.get(0).get_sequence_number(), 5);
    assert_eq!(t.get(1).get_sequence_number(), 5);
}

#[test]
fn echo_request_bytes_and_checksum() {
    let b = build_echo_request(8, 1234, 1);
    assert_eq!(b, vec![8, 0, 0xf3, 0x2c, 0x04, 0xd2, 0x00, 0x01]);
    let longer = build_echo_request(12, 1234, 1);
    assert_eq!(longer.len(), 12);
    assert_eq!(&longer[..8], &b[..]);
}

#[test]
fn echov6_request_bytes_and_checksum() {
    let b = build_echov6_request(4);
    assert_eq!(b, vec![128, 0, 0x7f, 0xff]);
}

#[test]
fn registry_keeps_address_order_and_replaces() {
    let mut t = Targets::new();
    t.insert(Ping::new(IpAddr::V6(1)));
    t.insert(Ping::new_with_seq(IpAddr::v4(10, 0, 0, 2), 7));
    t.insert(Ping::new(IpAddr::v4(10, 0, 0, 1)));
    t.insert(Ping::new_with_seq(IpAddr::v4(10, 0, 0, 2), 9));
    assert_eq!(t.len(), 3);
    assert_eq!(t.get(0).get_addr(), IpAddr::v4(10, 0, 0, 1));
    assert_eq!(t.get(1).get_addr(), IpAddr::v4(10, 0, 0, 2));
    assert_eq!(t.get(1).get_sequence_number(), 9);
    assert_eq!(t.get(2).get_addr(), IpAddr::V6(1));
    assert_eq!(t.find(&IpAddr::V6(1)), Some(2));
    assert_eq!(t.find(&IpAddr::V6(2)), None);
}

#[test]
fn begin_round_builds_probes_and_clears_seen() {
    let a = IpAddr::v4(10, 0, 0, 1);
    let mut p = Ping::new(a);
    p.seen = true;
    let id = p.get_identifier();
    let mut t = Targets::new();
    t.insert(p);
    t.insert(Ping::new(IpAddr::V6(9)));
    let probes = t.begin_round(8);
    assert_eq!(probes.len(), 2);
    assert_eq!(probes[0].addr, a);
    assert_eq!(probes[0].packet, build_echo_request(8, id, 1));
    assert_eq!(probes[1].addr, IpAddr::V6(9));
    assert_eq!(probes[1].packet, build_echov6_request(8));
    assert!(!t.get(0).is_seen());
}

#[test]
fn matching_reply_is_received_and_not_idle() {
    let a = IpAddr::v4(10, 0, 0, 1);
    let mut t = one_target(a, Ping::with_identifier(a, 1234, 0));
    t.begin_round(64);
    assert_eq!(t.get(0).get_sequence_number(), 1);
    let r = t.record_reply(&reply(a, 1234, 1));
    assert_eq!(
        r,
        Some(PingResult::Receive { addr: a, rtt: Duration::from_millis(12), seq: 1, ttl: 64 })
    );
    assert!(t.get(0).is_seen());
    assert_eq!(t.idle_results(), vec![]);
}

#[test]
fn no_reply_gives_one_idle() {
    let a = IpAddr::v4(10, 0, 0, 1);
    let mut t = one_target(a, Ping::with_identifier(a, 1234, 0));
    t.begin_round(64);
    assert!(wait_phase_over(1_000_000_001, 1_000_000_000));
    assert!(!wait_phase_over(1_000_000_000, 1_000_000_000));
    assert_eq!(t.idle_results(), vec![PingResult::Idle { addr: a }]);
    assert!(!t.get(0).is_seen());
}

#[test]
fn stale_reply_is_dropped() {
    let a = IpAddr::v4(10, 0, 0, 1);
    let mut t = one_target(a, Ping::with_identifier(a, 1234, 0));
    t.begin_round(64);
    assert_eq!(t.record_reply(&reply(a, 1234, 0)), None);
    assert!(!t.get(0).is_seen());
    assert_eq!(t.idle_results(), vec![PingResult::Idle { addr: a }]);
}

#[test]
fn foreign_identifier_or_unknown_address_is_dropped() {
    let a = IpAddr::v4(10, 0, 0, 1);
    let p = Ping::new(a);
    let id = p.get_identifier();
    let mut t = one_target(a, p);
    t.begin_round(64);
    assert_eq!(t.record_reply(&reply(a, id.wrapping_add(1), 1)), None);
    assert_eq!(t.record_reply(&reply(IpAddr::v4(10, 0, 0, 2), id, 1)), None);
    assert!(!t.get(0).is_seen());
}

#[test]
fn ipv6_reply_matches_only_with_identifier_zero() {
    // The IPv6 request carries neither identifier nor sequence number, yet
    // replies are still matched on both: only a receiver that reports
    // identifier 0 and the current sequence number gets a match.
    let a = IpAddr::V6(0x20010db8_0000_0000_0000_0000_0000_0001);
    let mut t = one_target(a, Ping::new(a));
    t.begin_round(8);
    assert_eq!(t.record_reply(&reply(a, 0, 0)), None);
    assert!(t.record_reply(&reply(a, 0, 1)).is_some());
}

#[test]
fn with_identifier_keeps_ipv4_identifier_only() {
    let a = IpAddr::v4(10, 0, 0, 1);
    let p = Ping::with_identifier(a, 1234, 7);
    assert_eq!(p.get_addr(), a);
    assert_eq!(p.get_identifier(), 1234);
    assert_eq!(p.get_sequence_number(), 7);
    assert!(!p.is_seen());
    let q = Ping::with_identifier(IpAddr::V6(3), 1234, 0);
    assert_eq!(q.get_identifier(), 0);
}

#[test]
fn new_with_seq_starts_at_given_sequence() {
    let a = IpAddr::v4(10, 0, 0, 1);
    let p = Ping::new_with_seq(a, 41);
    assert_eq!(p.get_addr(), a);
    assert_eq!(p.get_sequence_number(), 41);
    assert!(!p.is_seen());
    assert_eq!(Ping::new_with_seq(IpAddr::V6(3), 41).get_identifier(), 0);
}
