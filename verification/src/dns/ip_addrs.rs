//! The addresses that are tried in turn for one connection.
use crate::dns::{literal, rotation};
use crate::dns::literal::parse_literal;
use crate::dns::rotation::sort_ips;
use crate::net::{Ipv4Addr, SocketAddr, SocketAddrV4};
use vstd::prelude::*;

verus! {

/// The socket addresses of `ips` at `port`.
pub fn with_port(ips: &Vec<Ipv4Addr>, port: u16) -> (addrs: Vec<SocketAddr>)
    ensures
        addrs@ == rotation::socket_addrs(ips@, port),
{
    let mut addrs: Vec<SocketAddr> = Vec::new();
    let mut i: usize = 0;
    while i < ips.len()
        invariant
            i <= ips@.len(),
            addrs@ == rotation::socket_addrs(ips@.take(i as int), port),
        decreases ips@.len() - i,
    {
        addrs.push(SocketAddr::V4(SocketAddrV4 { ip: ips[i], port }));
        assert(addrs@ =~= rotation::socket_addrs(ips@.take(i + 1), port));
        i = i + 1;
    }
    assert(ips@.take(i as int) =~= ips@);
    addrs
}

/// Socket addresses that are handed out one by one, each once, from the place `offset` around.
///
/// Its view is the sequence of the addresses that are still to come.
pub struct IpAddrs {
    ips: Vec<SocketAddr>,
    current: usize,
    offset: usize,
}

impl View for IpAddrs {
    type V = Seq<SocketAddr>;

    closed spec fn view(&self) -> Seq<SocketAddr> {
        rotation::rotation(self.ips@, self.offset as nat).skip(self.current as int)
    }
}

impl IpAddrs {
    /// No more addresses were handed out than there are.
    #[verifier::type_invariant]
    spec fn wf(self) -> bool {
        self.current <= self.ips@.len()
    }

    /// The place of the next address, before it is counted around the end: the offset, and one more
    /// for each address that was handed out.
    pub closed spec fn position(self) -> nat {
        (self.current + self.offset) as nat
    }

    /// The addresses `ips` at `port`, in ascending order, from the place `offset` around.
    pub fn new(port: u16, ips: Vec<Ipv4Addr>, offset: usize) -> (addrs: IpAddrs)
        ensures
            addrs@ == rotation::rotation(
                rotation::socket_addrs(rotation::sorted_ips(ips@), port),
                offset as nat,
            ),
            addrs.position() == offset,
    {
        let sorted = sort_ips(&ips);
        let addrs = IpAddrs { ips: with_port(&sorted, port), current: 0, offset };
        assert(addrs@ =~= rotation::rotation(addrs.ips@, offset as nat));
        addrs
    }

    /// The one address of a host that is written as an address.
    pub fn try_parse(host: &str, port: u16) -> (addrs: Option<IpAddrs>)
        ensures
            match literal::literal_addr(host@, port) {
                Some(addr) => addrs matches Some(a) && a@ == seq![addr] && a.position() == 0,
                None => addrs is None,
            },
    {
        match parse_literal(host, port) {
            Some(addr) => {
                let addrs = IpAddrs { ips: vec![addr], current: 0, offset: 0 };
                assert(addrs@ =~= seq![addr]);
                Some(addrs)
            },
            None => None,
        }
    }

    /// Whether the next address can be handed out, or there is none.
    pub open spec fn can_count(self) -> bool {
        self@.len() > 0 ==> self.position() <= usize::MAX
    }

    /// Whether each address was handed out.
    pub fn is_empty(&self) -> (empty: bool)
        ensures
            empty == (self@.len() == 0),
    {
        proof {
            use_type_invariant(self);
        }
        self.current == self.ips.len()
    }

    /// Whether the next address can be handed out, or there is none.
    pub fn is_countable(&self) -> (countable: bool)
        ensures
            countable == self.can_count(),
    {
        proof {
            use_type_invariant(self);
        }
        self.current == self.ips.len() || self.current.checked_add(self.offset).is_some()
    }

    /// Hands out the next address. There is none once each was handed out.
    pub fn next(&mut self) -> (addr: Option<SocketAddr>)
        requires
            old(self).can_count(),
        ensures
            match addr {
                Some(a) => {
                    &&& old(self)@.len() > 0
                    &&& a == old(self)@[0]
                    &&& final(self)@ == old(self)@.drop_first()
                    &&& final(self).position() == old(self).position() + 1
                },
                None => old(self)@.len() == 0 && *final(self) == *old(self),
            },
    {
        proof {
            use_type_invariant(&*self);
        }
        if self.current == self.ips.len() {
            return None;
        }
        let index: usize = (self.current + self.offset) % self.ips.len();
        let item = self.ips[index];
        self.current = self.current + 1;
        assert(self@ =~= old(self)@.drop_first());
        Some(item)
    }
}

} // verus!
