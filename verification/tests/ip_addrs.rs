use hyper_http_connector::dns::ip_addrs::IpAddrs;
use hyper_http_connector::dns::records::{ips_of, min_ttl, AResult};
use hyper_http_connector::dns::rotation::sort_ips;
use hyper_http_connector::dns::sequential;
use hyper_http_connector::dns::shifted;
use hyper_http_connector::dns::shifted::SingleOrShifted;
use hyper_http_connector::net::{Ipv4Addr, SocketAddr, SocketAddrV4};

fn local(d: u8) -> Ipv4Addr {
    Ipv4Addr::new(127, 0, 0, d)
}

fn assert_ip(elem: Option<SocketAddr>, expected: Ipv4Addr) {
    match elem {
        Some(SocketAddr::V4(addr)) => assert_eq!(addr.ip, expected),
        _ => panic!("Not a Some(SocketAddrV4)!"),
    }
}

fn at(d: u8, port: u16) -> Option<SocketAddr> {
    Some(SocketAddr::V4(SocketAddrV4 { ip: local(d), port }))
}

fn record(d: u8, ttl: i32) -> AResult {
    AResult { ipv4: local(d), ttl }
}

#[test]
fn it_sorts_by_ip() {
    let mut a = IpAddrs::new(
        999,
        vec![
            Ipv4Addr::new(127, 0, 0, 1),
            Ipv4Addr::new(127, 0, 0, 4),
            Ipv4Addr::new(127, 0, 0, 3),
            Ipv4Addr::new(127, 0, 0, 2),
        ],
        0,
    );

    assert_ip(a.next(), Ipv4Addr::new(127, 0, 0, 1));
    assert_ip(a.next(), Ipv4Addr::new(127, 0, 0, 2));
    assert_ip(a.next(), Ipv4Addr::new(127, 0, 0, 3));
    assert_ip(a.next(), Ipv4Addr::new(127, 0, 0, 4));
    assert_eq!(a.next(), None);
}

#[test]
fn shifted_offsets_work() {
    let mut a = IpAddrs::new(
        999,
        vec![
            Ipv4Addr::new(127, 0, 0, 1),
            Ipv4Addr::new(127, 0, 0, 4),
            Ipv4Addr::new(127, 0, 0, 3),
            Ipv4Addr::new(127, 0, 0, 2),
        ],
        2,
    );

    assert_ip(a.next(), Ipv4Addr::new(127, 0, 0, 3));
    assert_ip(a.next(), Ipv4Addr::new(127, 0, 0, 4));
    assert_ip(a.next(), Ipv4Addr::new(127, 0, 0, 1));
    assert_ip(a.next(), Ipv4Addr::new(127, 0, 0, 2));
    assert_eq!(a.next(), None);
}

#[test]
fn single_or_shifted_single_works() {
    let mut a = SingleOrShifted::Single(Some(10));
    assert_eq!(Some(10), a.next());
    assert_eq!(None, a.next());
}

#[test]
fn single_or_shifted_shifted_works() {
    let mut a = SingleOrShifted::ShiftedVec(vec![Some(10), Some(20), Some(30)], 0);
    assert_eq!(Some(10), a.next());
    assert_eq!(Some(20), a.next());
    assert_eq!(Some(30), a.next());
    assert_eq!(None, a.next());

    let mut b = SingleOrShifted::ShiftedVec(vec![Some(10), Some(20), Some(30)], 2);
    assert_eq!(Some(30), b.next());
    assert_eq!(Some(10), b.next());
    assert_eq!(Some(20), b.next());
    assert_eq!(None, b.next());
}

#[test]
fn addresses_carry_the_port() {
    let mut a = IpAddrs::new(8080, vec![local(7)], 5);
    assert_eq!(a.next(), at(7, 8080));
    assert_eq!(a.next(), None);
    assert_eq!(a.next(), None);
}

#[test]
fn no_addresses_are_no_walk() {
    let mut a = IpAddrs::new(80, vec![], 3);
    assert!(a.is_empty());
    assert_eq!(a.next(), None);
    assert_eq!(a.next(), None);
}

#[test]
fn repeated_addresses_are_kept() {
    let mut a = IpAddrs::new(80, vec![local(2), local(1), local(2)], 0);
    assert_eq!(a.next(), at(1, 80));
    assert_eq!(a.next(), at(2, 80));
    assert_eq!(a.next(), at(2, 80));
    assert_eq!(a.next(), None);
}

#[test]
fn the_greatest_offset_begins_the_walk() {
    let mut a = IpAddrs::new(80, vec![local(1), local(2)], usize::MAX);
    assert_eq!(a.next(), at(2, 80));
}

#[test]
fn sorting_goes_by_the_first_octet_first() {
    let ips = vec![
        Ipv4Addr::new(10, 0, 0, 2),
        Ipv4Addr::new(9, 255, 255, 255),
        Ipv4Addr::new(10, 0, 1, 0),
        Ipv4Addr::new(10, 0, 0, 1),
    ];
    assert_eq!(
        sort_ips(&ips),
        vec![
            Ipv4Addr::new(9, 255, 255, 255),
            Ipv4Addr::new(10, 0, 0, 1),
            Ipv4Addr::new(10, 0, 0, 2),
            Ipv4Addr::new(10, 0, 1, 0),
        ]
    );
}

#[test]
fn bits_are_the_octets() {
    assert_eq!(Ipv4Addr::new(1, 2, 3, 4).to_bits(), 0x01020304);
    assert_eq!(Ipv4Addr::new(255, 254, 253, 252).to_bits(), 0xfffefdfc);
}

#[test]
fn shifts_one_apart_begin_one_apart() {
    let mut firsts = Vec::new();
    let mut offset: usize = 4;
    while offset < 7 {
        let mut a = IpAddrs::new(80, vec![local(3), local(1), local(2)], offset);
        firsts.push(a.next());
        offset += 1;
    }
    assert_eq!(firsts, vec![at(2, 80), at(3, 80), at(1, 80)]);
}

#[test]
fn the_least_ttl_is_found() {
    assert_eq!(min_ttl(&vec![]), None);
    assert_eq!(min_ttl(&vec![record(1, 60)]), Some(60));
    assert_eq!(min_ttl(&vec![record(1, 60), record(2, 5), record(3, 7)]), Some(5));
    assert_eq!(ips_of(&vec![record(2, 60), record(1, 5)]), vec![local(2), local(1)]);
}

#[test]
fn shifted_addresses_are_sorted_and_taken_once() {
    let mut a = shifted::IpAddrs::new(81, vec![record(3, 1), record(1, 1), record(2, 1)], 1);
    assert_eq!(a.next(), at(2, 81));
    assert_eq!(a.next(), at(3, 81));
    assert_eq!(a.next(), at(1, 81));
    assert_eq!(a.next(), None);
    assert_eq!(a.next(), None);
}

#[test]
fn sequential_addresses_keep_the_order_of_the_answer() {
    let mut a = sequential::IpAddrs::from_a_results(82, vec![record(3, 1), record(1, 1)]);
    assert_eq!(a.next(), at(3, 82));
    assert_eq!(a.next(), at(1, 82));
    assert_eq!(a.next(), None);
    assert_eq!(a.next(), None);
}

#[test]
fn every_kind_of_walk_takes_a_literal() {
    let mut a = IpAddrs::try_parse("127.0.0.9", 83).unwrap();
    assert_eq!(a.next(), at(9, 83));
    assert_eq!(a.next(), None);
    let mut b = shifted::IpAddrs::try_parse("127.0.0.9", 83).unwrap();
    assert_eq!(b.next(), at(9, 83));
    assert_eq!(b.next(), None);
    let mut c = sequential::IpAddrs::try_parse("127.0.0.9", 83).unwrap();
    assert_eq!(c.next(), at(9, 83));
    assert_eq!(c.next(), None);
    assert!(IpAddrs::try_parse("example.domain", 83).is_none());
    assert!(shifted::IpAddrs::try_parse("example.domain", 83).is_none());
    assert!(sequential::IpAddrs::try_parse("example.domain", 83).is_none());
}
