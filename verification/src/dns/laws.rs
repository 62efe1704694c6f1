//! What holds of the addresses that are handed out.
use crate::dns::{ip_addrs, records, rotation, sequential, shifted};
use crate::dns::records::AResult;
use crate::dns::shifted::SingleOrShifted;
use crate::net::{ipv4_leq, lemma_precedes, precedes, Ipv4Addr, SocketAddr, SocketAddrV4};
use vstd::prelude::*;

verus! {

/// Whether the addresses ascend by their octets.
pub open spec fn ascend(ips: Seq<Ipv4Addr>) -> bool {
    forall|i: int, j: int|
        0 <= i < j < ips.len() ==> !precedes(#[trigger] ips[j], #[trigger] ips[i])
}

/// Whether `addrs` are IPv4 addresses at `port`.
pub open spec fn all_at_port(addrs: Seq<SocketAddr>, port: u16) -> bool {
    forall|i: int|
        0 <= i < addrs.len() ==> ((#[trigger] addrs[i]) matches SocketAddr::V4(a) && a.port == port)
}

/// The addresses without their ports.
pub open spec fn without_ports(addrs: Seq<SocketAddr>) -> Seq<Ipv4Addr> {
    Seq::new(addrs.len(), |i: int| addrs[i]->V4_0.ip)
}

/// What is sorted ascends.
pub proof fn lemma_sorted_ascends(ips: Seq<Ipv4Addr>)
    ensures
        ascend(rotation::sorted_ips(ips)),
{
    let sorted = rotation::sorted_ips(ips);
    let leq = ipv4_leq();
    rotation::law_sorting_keeps_addresses(ips);
    assert forall|i: int, j: int| 0 <= i < j < sorted.len() implies !precedes(
        #[trigger] sorted[j],
        #[trigger] sorted[i],
    ) by {
        assert(leq(sorted[i], sorted[j]));
        lemma_precedes(sorted[j], sorted[i]);
    }
}

/// Sorting addresses puts them in ascending order of their octets, and neither loses nor adds one.
pub proof fn law_addresses_are_sorted(ips: &Vec<Ipv4Addr>, sorted: Vec<Ipv4Addr>)
    requires
        call_ensures(rotation::sort_ips, (ips,), sorted),
    ensures
        ascend(sorted@),
        sorted@.len() == ips@.len(),
        sorted@.to_multiset() == ips@.to_multiset(),
{
    lemma_sorted_ascends(ips@);
    rotation::law_sorting_keeps_addresses(ips@);
}

/// The addresses of the records are those of the answer, in its order.
pub proof fn law_records_are_kept_in_order(results: &Vec<AResult>, ips: Vec<Ipv4Addr>)
    requires
        call_ensures(records::ips_of, (results,), ips),
    ensures
        ips@.len() == results@.len(),
        forall|i: int| 0 <= i < ips@.len() ==> #[trigger] ips@[i] == results@[i].ipv4,
{
}

/// The least time to live is that of a record, and no record has a lesser one.
pub proof fn law_no_record_outlives_the_answer(results: &Vec<AResult>, ttl: Option<i32>)
    requires
        call_ensures(records::min_ttl, (results,), ttl),
    ensures
        ttl is None <==> results@.len() == 0,
        ttl matches Some(least) ==> {
            &&& exists|i: int| 0 <= i < results@.len() && (#[trigger] results@[i]).ttl == least
            &&& forall|i: int| 0 <= i < results@.len() ==> least <= (#[trigger] results@[i]).ttl
        },
{
    records::law_least_ttl(results@);
}

/// Each address gets the port, at its place.
pub proof fn law_every_address_gets_the_port(
    ips: &Vec<Ipv4Addr>,
    port: u16,
    addrs: Vec<SocketAddr>,
)
    requires
        call_ensures(ip_addrs::with_port, (ips, port), addrs),
    ensures
        addrs@.len() == ips@.len(),
        forall|i: int|
            0 <= i < addrs@.len() ==> #[trigger] addrs@[i] == SocketAddr::V4(
                SocketAddrV4 { ip: ips@[i], port },
            ),
{
}

/// A walk from an offset.
pub proof fn lemma_walk(ips: Seq<Ipv4Addr>, port: u16, offset: nat)
    ensures
        ({
            let addrs = rotation::rotation(
                rotation::socket_addrs(rotation::sorted_ips(ips), port),
                offset,
            );
            &&& addrs.len() == ips.len()
            &&& all_at_port(addrs, port)
            &&& without_ports(addrs).to_multiset() == ips.to_multiset()
            &&& offset == 0 ==> ascend(without_ports(addrs))
        }),
{
    let sorted = rotation::sorted_ips(ips);
    let addrs = rotation::rotation(rotation::socket_addrs(sorted, port), offset);
    rotation::law_sorting_keeps_addresses(ips);
    rotation::law_rotation_visits_all(sorted, offset);
    lemma_sorted_ascends(ips);
    assert(without_ports(addrs) =~= rotation::rotation(sorted, offset));
    if offset == 0 {
        rotation::law_walk_from_the_start(sorted);
    }
}

/// The addresses of a connection are those that it was given, all at its port. From the offset 0
/// they ascend.
pub proof fn law_all_addresses_are_handed_out(
    port: u16,
    ips: Vec<Ipv4Addr>,
    offset: usize,
    addrs: ip_addrs::IpAddrs,
)
    requires
        call_ensures(ip_addrs::IpAddrs::new, (port, ips, offset), addrs),
    ensures
        addrs@.len() == ips@.len(),
        all_at_port(addrs@, port),
        without_ports(addrs@).to_multiset() == ips@.to_multiset(),
        offset == 0 ==> ascend(without_ports(addrs@)),
        addrs.position() == offset,
        addrs.can_count(),
{
    lemma_walk(ips@, port, offset as nat);
}

/// From the next offset, the addresses begin one further: what came first comes last.
pub proof fn law_next_offset_begins_one_further(
    port: u16,
    ips: Vec<Ipv4Addr>,
    offset: usize,
    addrs: ip_addrs::IpAddrs,
    next_offset: usize,
    next: ip_addrs::IpAddrs,
)
    requires
        call_ensures(ip_addrs::IpAddrs::new, (port, ips, offset), addrs),
        call_ensures(ip_addrs::IpAddrs::new, (port, ips, next_offset), next),
        next_offset == offset + 1,
        ips@.len() > 0,
    ensures
        next@ == addrs@.drop_first().push(addrs@[0]),
{
    rotation::law_sorting_keeps_addresses(ips@);
    rotation::law_next_walk_begins_one_further(
        rotation::socket_addrs(rotation::sorted_ips(ips@), port),
        offset as nat,
    );
}

/// Each address is handed out once, in turn, and then none. Handing one out takes one place.
pub proof fn law_handed_out_once(addrs: &mut ip_addrs::IpAddrs, addr: Option<SocketAddr>)
    requires
        old(addrs).can_count(),
        call_ensures(ip_addrs::IpAddrs::next, (addrs,), addr),
    ensures
        match addr {
            Some(a) => {
                &&& old(addrs)@ == seq![a] + final(addrs)@
                &&& final(addrs).position() == old(addrs).position() + 1
            },
            None => old(addrs)@.len() == 0 && final(addrs)@.len() == 0,
        },
{
    if let Some(a) = addr {
        assert(old(addrs)@ =~= seq![a] + old(addrs)@.drop_first());
    }
}

/// An address can be handed out unless its place is beyond the greatest number, and it can be told
/// whether one is left.
pub proof fn law_places_are_counted(addrs: &ip_addrs::IpAddrs, countable: bool, empty: bool)
    requires
        call_ensures(ip_addrs::IpAddrs::is_countable, (addrs,), countable),
        call_ensures(ip_addrs::IpAddrs::is_empty, (addrs,), empty),
    ensures
        empty <==> addrs@.len() == 0,
        countable <==> (addrs@.len() == 0 || addrs.position() <= usize::MAX),
        countable <==> addrs.can_count(),
{
}

/// The addresses of an answer are handed out in its order, all at its port.
pub proof fn law_answer_is_handed_out_in_order(
    port: u16,
    a_results: Vec<AResult>,
    addrs: sequential::IpAddrs,
)
    requires
        call_ensures(sequential::IpAddrs::from_a_results, (port, a_results), addrs),
    ensures
        addrs@.len() == a_results@.len(),
        forall|i: int|
            0 <= i < addrs@.len() ==> #[trigger] addrs@[i] == SocketAddr::V4(
                SocketAddrV4 { ip: a_results@[i].ipv4, port },
            ),
        addrs.count() == 0,
{
}

/// Each address of an answer is handed out once, in turn, and then none.
pub proof fn law_handed_out_once_in_order(
    addrs: &mut sequential::IpAddrs,
    addr: Option<SocketAddr>,
)
    requires
        old(addrs).count() < usize::MAX,
        call_ensures(sequential::IpAddrs::next, (addrs,), addr),
    ensures
        match addr {
            Some(a) => old(addrs)@ == seq![a] + final(addrs)@,
            None => old(addrs)@.len() == 0 && final(addrs)@.len() == 0,
        },
        final(addrs).count() <= old(addrs).count() + 1,
{
    if let Some(a) = addr {
        assert(old(addrs)@ =~= seq![a] + old(addrs)@.drop_first());
    }
}

/// Taking an item empties its place, moves on to the next place, and leaves every other place.
pub proof fn law_taking_empties_one_place<T>(items: &mut SingleOrShifted<T>, item: Option<T>)
    requires
        old(items).can_take(),
        call_ensures(SingleOrShifted::<T>::next, (items,), item),
    ensures
        match (*old(items), *final(items)) {
            (SingleOrShifted::Single(only), SingleOrShifted::Single(left)) => item == only
                && left is None,
            (SingleOrShifted::ShiftedVec(before, index), SingleOrShifted::ShiftedVec(after, next)) =>
            {
                let place = index as int % before@.len() as int;
                &&& item == before@[place]
                &&& after@.len() == before@.len()
                &&& after@[place] is None
                &&& forall|i: int|
                    0 <= i < before@.len() && i != place ==> #[trigger] after@[i] == before@[i]
                &&& next == index + 1
            },
            _ => false,
        },
{
}

/// The same holds of addresses, which a host that is written as an address has one of.
pub proof fn law_taking_an_address_empties_one_place(
    addrs: &mut shifted::IpAddrs,
    addr: Option<SocketAddr>,
)
    requires
        old(addrs).inner().can_take(),
        call_ensures(shifted::IpAddrs::next, (addrs,), addr),
    ensures
        match (old(addrs).inner(), final(addrs).inner()) {
            (SingleOrShifted::Single(only), SingleOrShifted::Single(left)) => addr == only
                && left is None,
            (SingleOrShifted::ShiftedVec(before, index), SingleOrShifted::ShiftedVec(after, next)) =>
            {
                let place = index as int % before@.len() as int;
                &&& addr == before@[place]
                &&& after@.len() == before@.len()
                &&& after@[place] is None
                &&& forall|i: int|
                    0 <= i < before@.len() && i != place ==> #[trigger] after@[i] == before@[i]
                &&& next == index + 1
            },
            _ => false,
        },
{
}

/// An item can be taken wherever there is a place and the next place can be counted.
pub proof fn law_an_item_can_be_taken<T>(items: SingleOrShifted<T>)
    ensures
        items.can_take() <==> match items {
            SingleOrShifted::Single(_) => true,
            SingleOrShifted::ShiftedVec(places, index) => places@.len() > 0 && index < usize::MAX,
        },
{
}

/// The places of an answer hold its addresses, all at its port, in ascending order.
pub proof fn law_places_hold_the_answer(
    port: u16,
    a_results: Vec<AResult>,
    index: usize,
    addrs: shifted::IpAddrs,
)
    requires
        call_ensures(shifted::IpAddrs::new, (port, a_results, index), addrs),
    ensures
        addrs.inner() matches SingleOrShifted::ShiftedVec(places, start) && {
            let held = Seq::new(places@.len(), |i: int| places@[i].unwrap());
            &&& start == index
            &&& places@.len() == a_results@.len()
            &&& forall|i: int| 0 <= i < places@.len() ==> (#[trigger] places@[i]) is Some
            &&& all_at_port(held, port)
            &&& ascend(without_ports(held))
            &&& without_ports(held).to_multiset() == Seq::new(
                a_results@.len(),
                |i: int| a_results@[i].ipv4,
            ).to_multiset()
        },
{
    let ips = Seq::new(a_results@.len(), |i: int| a_results@[i].ipv4);
    assert(records::record_ips(a_results@) =~= ips);
    let items = rotation::socket_addrs(rotation::sorted_ips(ips), port);
    lemma_walk(ips, port, 0);
    rotation::law_sorting_keeps_addresses(ips);
    rotation::law_walk_from_the_start(items);
    match addrs.inner() {
        SingleOrShifted::ShiftedVec(places, start) => {
            let held = Seq::new(places@.len(), |i: int| places@[i].unwrap());
            assert(held =~= items);
        },
        _ => {},
    }
}

/// Nothing is asked of a caller but that the next place can be counted.
pub proof fn law_addresses_can_be_asked_for(
    ips: Vec<Ipv4Addr>,
    port: u16,
    offset: usize,
    a_results: Vec<AResult>,
    addrs: &mut ip_addrs::IpAddrs,
    in_order: &mut sequential::IpAddrs,
    places: &mut shifted::IpAddrs,
)
    ensures
        call_requires(ip_addrs::IpAddrs::new, (port, ips, offset)),
        call_requires(sequential::IpAddrs::from_a_results, (port, a_results)),
        call_requires(shifted::IpAddrs::new, (port, a_results, offset)),
        old(addrs)@.len() == 0 || old(addrs).position() <= usize::MAX ==> call_requires(
            ip_addrs::IpAddrs::next,
            (addrs,),
        ),
        old(in_order).count() < usize::MAX ==> call_requires(sequential::IpAddrs::next, (in_order,)),
        old(places).inner().can_take() ==> call_requires(shifted::IpAddrs::next, (places,)),
{
}

} // verus!
