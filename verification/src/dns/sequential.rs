//! Addresses in the order of the answer.
use crate::dns::{literal, records, rotation};
use crate::dns::literal::parse_literal;
use crate::dns::records::AResult;
use crate::net::{SocketAddr, SocketAddrV4};
use std::collections::VecDeque;
use vstd::prelude::*;

verus! {

/// Where the addresses come from: a queue of them, or the records of an answer with a port and the
/// place of the next record.
pub enum IpAddrsInner {
    AddrVec(VecDeque<SocketAddr>),
    CAres(u16, Vec<AResult>, usize),
}

/// Socket addresses that are handed out one by one, in the order of the answer.
///
/// Its view is the sequence of the addresses that are still to come.
pub struct IpAddrs {
    inner: IpAddrsInner,
}

/// The addresses of the records from the place `index` on.
pub open spec fn records_from(port: u16, results: Seq<AResult>, index: nat) -> Seq<SocketAddr> {
    if index <= results.len() {
        rotation::socket_addrs(records::record_ips(results), port).skip(index as int)
    } else {
        Seq::empty()
    }
}

impl View for IpAddrs {
    type V = Seq<SocketAddr>;

    closed spec fn view(&self) -> Seq<SocketAddr> {
        match self.inner {
            IpAddrsInner::AddrVec(addrs) => addrs@,
            IpAddrsInner::CAres(port, results, index) => records_from(
                port,
                results@,
                index as nat,
            ),
        }
    }
}

impl IpAddrs {
    /// Whether the addresses are those of an answer.
    pub closed spec fn is_answer(self) -> bool {
        self.inner is CAres
    }

    /// How often an address of an answer was asked for.
    pub closed spec fn count(self) -> nat {
        match self.inner {
            IpAddrsInner::AddrVec(_) => 0,
            IpAddrsInner::CAres(_, _, index) => index as nat,
        }
    }

    /// The addresses of the records at `port`, in the order of the answer.
    pub fn from_a_results(port: u16, a_results: Vec<AResult>) -> (addrs: IpAddrs)
        ensures
            addrs@ == rotation::socket_addrs(records::record_ips(a_results@), port),
            addrs.is_answer(),
            addrs.count() == 0,
    {
        let addrs = IpAddrs { inner: IpAddrsInner::CAres(port, a_results, 0) };
        assert(addrs@ =~= rotation::socket_addrs(records::record_ips(a_results@), port));
        addrs
    }

    /// The one address of a host that is written as an address.
    pub fn try_parse(host: &str, port: u16) -> (addrs: Option<IpAddrs>)
        ensures
            match literal::literal_addr(host@, port) {
                Some(addr) => addrs matches Some(a) && a@ == seq![addr] && !a.is_answer()
                    && a.count() == 0,
                None => addrs is None,
            },
    {
        match parse_literal(host, port) {
            Some(addr) => {
                let mut queue: VecDeque<SocketAddr> = VecDeque::new();
                queue.push_back(addr);
                assert(queue@ =~= seq![addr]);
                Some(IpAddrs { inner: IpAddrsInner::AddrVec(queue) })
            },
            None => None,
        }
    }

    /// Hands out the next address. There is none once each was handed out.
    pub fn next(&mut self) -> (addr: Option<SocketAddr>)
        requires
            old(self).count() < usize::MAX,
        ensures
            addr == (if old(self)@.len() > 0 {
                Some(old(self)@[0])
            } else {
                None
            }),
            final(self)@ == (if old(self)@.len() > 0 {
                old(self)@.drop_first()
            } else {
                Seq::empty()
            }),
            final(self).is_answer() == old(self).is_answer(),
            final(self).count() == old(self).count() + (if old(self).is_answer() {
                1int
            } else {
                0
            }),
    {
        match &mut self.inner {
            IpAddrsInner::AddrVec(addrs) => addrs.pop_front(),
            IpAddrsInner::CAres(port, results, index) => {
                let place: usize = *index;
                *index = *index + 1;
                if place < results.len() {
                    Some(SocketAddr::V4(SocketAddrV4 { ip: results[place].ipv4, port: *port }))
                } else {
                    None
                }
            },
        }
    }
}

} // verus!
