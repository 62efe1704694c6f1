//! Internet addresses as plain values.
use vstd::prelude::*;

verus! {

/// An IPv4 address, by its four octets in network order.
#[derive(Debug, Clone, Copy, PartialEq, Eq)]
pub struct Ipv4Addr {
    pub octets: [u8; 4],
}

/// An IPv6 address, by its eight 16-bit segments in network order.
#[derive(Debug, Clone, Copy, PartialEq, Eq)]
pub struct Ipv6Addr {
    pub segments: [u16; 8],
}

/// An address of either family.
#[derive(Debug, Clone, Copy, PartialEq, Eq)]
pub enum IpAddr {
    V4(Ipv4Addr),
    V6(Ipv6Addr),
}

/// An IPv4 address with a port.
#[derive(Debug, Clone, Copy, PartialEq, Eq)]
pub struct SocketAddrV4 {
    pub ip: Ipv4Addr,
    pub port: u16,
}

/// An IPv6 address with a port, a flow label and a scope.
#[derive(Debug, Clone, Copy, PartialEq, Eq)]
pub struct SocketAddrV6 {
    pub ip: Ipv6Addr,
    pub port: u16,
    pub flowinfo: u32,
    pub scope_id: u32,
}

/// A socket address of either family.
#[derive(Debug, Clone, Copy, PartialEq, Eq)]
pub enum SocketAddr {
    V4(SocketAddrV4),
    V6(SocketAddrV6),
}

impl Ipv4Addr {
    /// The address `a.b.c.d`.
    pub fn new(a: u8, b: u8, c: u8, d: u8) -> (addr: Ipv4Addr)
        ensures
            addr.octets@ == seq![a, b, c, d],
    {
        Ipv4Addr { octets: [a, b, c, d] }
    }

    /// The octets read as one number, the first octet being the most significant. Addresses are
    /// ordered by this number, which is the lexicographic order of their octets.
    pub open spec fn bits(self) -> nat {
        (((self.octets[0] as nat * 256 + self.octets[1]) * 256 + self.octets[2]) * 256
            + self.octets[3]) as nat
    }

    /// The number that the octets spell.
    pub fn to_bits(self) -> (bits: u32)
        ensures
            bits == self.bits(),
    {
        ((self.octets[0] as u32 * 256 + self.octets[1] as u32) * 256 + self.octets[2] as u32) * 256
            + self.octets[3] as u32
    }
}

/// Two IPv4 addresses that spell the same number are the same address.
pub proof fn lemma_bits_injective(x: Ipv4Addr, y: Ipv4Addr)
    requires
        x.bits() == y.bits(),
    ensures
        x == y,
{
    assert(x.octets =~= y.octets);
}

/// Whether the first octet in which two addresses differ is lesser in `x`.
pub open spec fn precedes(x: Ipv4Addr, y: Ipv4Addr) -> bool {
    exists|i: int|
        {
            &&& 0 <= i < 4
            &&& #[trigger] x.octets[i] < y.octets[i]
            &&& forall|j: int| 0 <= j < i ==> #[trigger] x.octets[j] == y.octets[j]
        }
}

/// Addresses are ordered by their octets.
pub proof fn lemma_precedes(x: Ipv4Addr, y: Ipv4Addr)
    ensures
        x.bits() < y.bits() <==> precedes(x, y),
{
    let (a, b) = (x.octets, y.octets);
    if x.bits() < y.bits() {
        if a[0] != b[0] {
            assert(a[0] < b[0]);
        } else if a[1] != b[1] {
            assert(a[1] < b[1]);
        } else if a[2] != b[2] {
            assert(a[2] < b[2]);
        } else {
            assert(a[3] < b[3]);
        }
    }
    if precedes(x, y) {
        let i = choose|i: int|
            {
                &&& 0 <= i < 4
                &&& #[trigger] a[i] < b[i]
                &&& forall|j: int| 0 <= j < i ==> #[trigger] a[j] == b[j]
            };
        assert(i == 0 || i == 1 || i == 2 || i == 3);
        assert(i > 0 ==> a[0] == b[0]);
        assert(i > 1 ==> a[1] == b[1]);
        assert(i > 2 ==> a[2] == b[2]);
    }
}

/// The numbers of addresses are ordered as the addresses are by their octets.
pub proof fn law_order_is_that_of_the_octets(x: Ipv4Addr, y: Ipv4Addr, x_bits: u32, y_bits: u32)
    requires
        call_ensures(Ipv4Addr::to_bits, (x,), x_bits),
        call_ensures(Ipv4Addr::to_bits, (y,), y_bits),
    ensures
        x_bits < y_bits <==> precedes(x, y),
        x_bits == y_bits <==> x == y,
{
    lemma_precedes(x, y);
    if x.bits() == y.bits() {
        lemma_bits_injective(x, y);
    }
}

/// The octets of an address are those that it was made of.
pub proof fn law_octets_are_kept(a: u8, b: u8, c: u8, d: u8, addr: Ipv4Addr)
    requires
        call_ensures(Ipv4Addr::new, (a, b, c, d), addr),
    ensures
        addr.octets[0] == a,
        addr.octets[1] == b,
        addr.octets[2] == c,
        addr.octets[3] == d,
{
    let octets = addr.octets@;
    assert(octets[0] == a && octets[1] == b && octets[2] == c && octets[3] == d);
}

/// The order of IPv4 addresses.
pub open spec fn ipv4_leq() -> spec_fn(Ipv4Addr, Ipv4Addr) -> bool {
    |x: Ipv4Addr, y: Ipv4Addr| x.bits() <= y.bits()
}

/// The socket address of `ip` at `port`.
pub open spec fn at_port(ip: Ipv4Addr, port: u16) -> SocketAddr {
    SocketAddr::V4(SocketAddrV4 { ip, port })
}

} // verus!
