use hyper_http_connector::dns::literal::parse_literal;
use hyper_http_connector::net::{Ipv4Addr, Ipv6Addr, SocketAddr, SocketAddrV4, SocketAddrV6};

fn v4(a: u8, b: u8, c: u8, d: u8) -> Option<SocketAddr> {
    Some(SocketAddr::V4(SocketAddrV4 { ip: Ipv4Addr::new(a, b, c, d), port: 80 }))
}

fn v6(segments: [u16; 8]) -> Option<SocketAddr> {
    Some(SocketAddr::V6(SocketAddrV6 {
        ip: Ipv6Addr { segments },
        port: 80,
        flowinfo: 0,
        scope_id: 0,
    }))
}

fn read(host: &str) -> Option<SocketAddr> {
    parse_literal(host, 80)
}

#[test]
fn dotted_addresses_are_read() {
    assert_eq!(read("127.0.0.1"), v4(127, 0, 0, 1));
    assert_eq!(read("255.255.255.255"), v4(255, 255, 255, 255));
    assert_eq!(read("0.0.0.0"), v4(0, 0, 0, 0));
    assert_eq!(read("1.20.200.9"), v4(1, 20, 200, 9));
}

#[test]
fn what_is_not_four_octets_is_no_dotted_address() {
    for host in [
        "", ".", "...", "1", "1.2.3", "1.2.3.4.5", "1.2.3.4.", ".1.2.3.4", "1..2.3", "256.0.0.1",
        "1.2.3.999", "1.2.3.1000", "01.2.3.4", "1.2.3.00", "0x1.2.3.4", "1.2.3.a", "+1.2.3.4",
        "1.2.3.4 ", " 1.2.3.4", "1.2.3.-4", "example.domain", "1.2.3.\u{661}",
    ] {
        assert_eq!(read(host), None);
    }
}

#[test]
fn the_port_is_kept() {
    assert_eq!(
        parse_literal("10.0.0.1", 8080),
        Some(SocketAddr::V4(SocketAddrV4 { ip: Ipv4Addr::new(10, 0, 0, 1), port: 8080 }))
    );
}

#[test]
fn colon_addresses_are_read() {
    assert_eq!(read("1:2:3:4:5:6:7:8"), v6([1, 2, 3, 4, 5, 6, 7, 8]));
    assert_eq!(read("::"), v6([0; 8]));
    assert_eq!(read("::1"), v6([0, 0, 0, 0, 0, 0, 0, 1]));
    assert_eq!(read("1::"), v6([1, 0, 0, 0, 0, 0, 0, 0]));
    assert_eq!(read("2001:db8::8a2E:370:7334"), v6([0x2001, 0xdb8, 0, 0, 0, 0x8a2e, 0x370, 0x7334]));
    assert_eq!(read("1:2:3:4:5:6:7::"), v6([1, 2, 3, 4, 5, 6, 7, 0]));
    assert_eq!(read("::2:3:4:5:6:7:8"), v6([0, 2, 3, 4, 5, 6, 7, 8]));
    assert_eq!(read("0001:00ff::"), v6([1, 255, 0, 0, 0, 0, 0, 0]));
    assert_eq!(read("1:2::7:8"), v6([1, 2, 0, 0, 0, 0, 7, 8]));
}

#[test]
fn colon_addresses_may_end_in_a_dotted_one() {
    assert_eq!(read("::1.2.3.4"), v6([0, 0, 0, 0, 0, 0, 0x102, 0x304]));
    assert_eq!(read("::ffff:127.0.0.1"), v6([0, 0, 0, 0, 0, 0xffff, 0x7f00, 1]));
    assert_eq!(read("1:2:3:4:5:6:7.8.9.10"), v6([1, 2, 3, 4, 5, 6, 0x708, 0x90a]));
    assert_eq!(read("1::5:6:7.8.9.10"), v6([1, 0, 0, 0, 5, 6, 0x708, 0x90a]));
    assert_eq!(read("::1:2:3:4:5:1.2.3.4"), v6([0, 1, 2, 3, 4, 5, 0x102, 0x304]));
}

#[test]
fn what_is_not_eight_groups_is_no_colon_address() {
    for host in [
        ":", ":::", "1", "1:2:3:4:5:6:7", "1:2:3:4:5:6:7:8:9", "1:2:3:4:5:6:7:8::",
        "::1:2:3:4:5:6:7:8", "1::2::3", ":1:2:3:4:5:6:7", "1:2:3:4:5:6:7:", "12345::", "::g",
        "1.2.3.4::", "::1.2.3.4:5", "1:2:3:4:5:6:7:1.2.3.4", "::1.2.3", "::1.2.3.256", "[::1]",
        "::1%1", "::1 ", "1:2:3:4:5:6:7.8.9.10::", ":::1", "1:::2", "::2:3:4:5:6:7:1.2.3.4",
    ] {
        assert_eq!(read(host), None);
    }
}
