//! Sorting addresses and starting a walk over them at an offset.
use crate::net::{ipv4_leq, lemma_bits_injective, at_port, Ipv4Addr, SocketAddr};
use vstd::prelude::*;
use vstd::relations::{sorted_by, total_ordering};
use vstd::seq_lib::{
    group_to_multiset_ensures, lemma_multiset_commutative, lemma_sorted_unique,
    to_multiset_insert,
};

verus! {

/// The addresses in ascending order.
pub open spec fn sorted_ips(ips: Seq<Ipv4Addr>) -> Seq<Ipv4Addr> {
    ips.sort_by(ipv4_leq())
}

/// The socket addresses of `ips` at `port`, in the same order.
pub open spec fn socket_addrs(ips: Seq<Ipv4Addr>, port: u16) -> Seq<SocketAddr> {
    Seq::new(ips.len(), |i: int| at_port(ips[i], port))
}

/// `items` walked once from the place `offset`, counted around the end.
pub open spec fn rotation<T>(items: Seq<T>, offset: nat) -> Seq<T> {
    Seq::new(items.len(), |i: int| items[(i + offset) % items.len() as int])
}

/// The order of IPv4 addresses is total.
pub proof fn lemma_ipv4_leq_total()
    ensures
        total_ordering(ipv4_leq()),
{
    let leq = ipv4_leq();
    assert forall|x: Ipv4Addr, y: Ipv4Addr| #[trigger] leq(x, y) && #[trigger] leq(
        y,
        x,
    ) implies x == y by {
        lemma_bits_injective(x, y);
    }
}

/// Whichever order the addresses of a host come in, they are sorted alike: a sorted sequence of
/// the same addresses is the sorted sequence.
pub proof fn law_sorted_unique(ips: Seq<Ipv4Addr>, sorted: Seq<Ipv4Addr>)
    requires
        sorted_by(sorted, ipv4_leq()),
        sorted.to_multiset() == ips.to_multiset(),
    ensures
        sorted == sorted_ips(ips),
{
    lemma_ipv4_leq_total();
    ips.lemma_sort_by_ensures(ipv4_leq());
    lemma_sorted_unique(sorted, sorted_ips(ips), ipv4_leq());
}

/// Two answers that hold the same addresses, in whatever order, give the same walk at every
/// offset. The choice by offset rests on this.
pub proof fn law_order_of_answer_is_irrelevant(
    ips: Seq<Ipv4Addr>,
    others: Seq<Ipv4Addr>,
    port: u16,
    offset: nat,
)
    requires
        ips.to_multiset() == others.to_multiset(),
    ensures
        rotation(socket_addrs(sorted_ips(ips), port), offset) == rotation(
            socket_addrs(sorted_ips(others), port),
            offset,
        ),
{
    lemma_ipv4_leq_total();
    ips.lemma_sort_by_ensures(ipv4_leq());
    law_sorted_unique(others, sorted_ips(ips));
}

/// Sorting neither loses nor adds an address.
pub proof fn law_sorting_keeps_addresses(ips: Seq<Ipv4Addr>)
    ensures
        sorted_ips(ips).to_multiset() == ips.to_multiset(),
        sorted_ips(ips).len() == ips.len(),
        sorted_by(sorted_ips(ips), ipv4_leq()),
{
    broadcast use group_to_multiset_ensures;

    lemma_ipv4_leq_total();
    ips.lemma_sort_by_ensures(ipv4_leq());
    assert(sorted_ips(ips).len() == sorted_ips(ips).to_multiset().len());
}

/// The same addresses at the same port are the same socket addresses.
pub proof fn lemma_same_socket_addrs(ips: Seq<Ipv4Addr>, others: Seq<Ipv4Addr>, port: u16)
    requires
        ips.to_multiset() == others.to_multiset(),
    ensures
        socket_addrs(ips, port).to_multiset() == socket_addrs(others, port).to_multiset(),
    decreases ips.len(),
{
    broadcast use group_to_multiset_ensures;

    assert(ips.len() == ips.to_multiset().len());
    assert(others.len() == others.to_multiset().len());
    if ips.len() > 0 {
        let ip = ips.last();
        assert(ips[ips.len() - 1] == ip);
        assert(ips.contains(ip));
        assert(others.to_multiset().count(ip) > 0);
        let k = choose|k: int| 0 <= k < others.len() && others[k] == ip;
        assert(ips.remove(ips.len() - 1) =~= ips.drop_last());
        lemma_same_socket_addrs(ips.drop_last(), others.remove(k), port);
        assert(socket_addrs(ips, port).remove(ips.len() - 1) =~= socket_addrs(
            ips.drop_last(),
            port,
        ));
        assert(socket_addrs(others, port).remove(k) =~= socket_addrs(others.remove(k), port));
        let a = socket_addrs(ips, port);
        let b = socket_addrs(others, port);
        assert(a[ips.len() - 1] == b[k]);
        assert(a.to_multiset().count(a[ips.len() - 1]) > 0);
        assert(b.to_multiset().count(b[k]) > 0);
        assert(a.to_multiset() =~= a.remove(ips.len() - 1).to_multiset().insert(
            a[ips.len() - 1],
        ));
        assert(b.to_multiset() =~= b.remove(k).to_multiset().insert(b[k]));
    } else {
        assert(socket_addrs(ips, port) =~= socket_addrs(others, port));
    }
}

/// A walk from an offset is the end of the items followed by their beginning.
pub proof fn lemma_rotation_parts<T>(items: Seq<T>, offset: nat)
    requires
        items.len() > 0,
    ensures
        rotation(items, offset) == items.skip(offset as int % items.len() as int) + items.take(
            offset as int % items.len() as int,
        ),
{
    let n = items.len() as int;
    let k = offset as int % n;
    let whole = offset as int / n;
    assert(offset == n * whole + k) by (nonlinear_arith)
        requires
            n > 0,
            whole == offset as int / n,
            k == offset as int % n,
    ;
    assert forall|i: int| 0 <= i < n implies #[trigger] rotation(items, offset)[i] == (items.skip(k)
        + items.take(k))[i] by {
        if i + k < n {
            vstd::arithmetic::div_mod::lemma_mod_multiples_vanish(whole, i + k, n);
            vstd::arithmetic::div_mod::lemma_small_mod((i + k) as nat, n as nat);
        } else {
            assert(n * whole + (i + k) == n * (whole + 1) + (i + k - n)) by (nonlinear_arith);
            vstd::arithmetic::div_mod::lemma_mod_multiples_vanish(whole + 1, i + k - n, n);
            vstd::arithmetic::div_mod::lemma_small_mod((i + k - n) as nat, n as nat);
        }
    }
    assert(rotation(items, offset) =~= items.skip(k) + items.take(k));
}

/// A walk from the start is the items in their order.
pub proof fn law_walk_from_the_start<T>(items: Seq<T>)
    ensures
        rotation(items, 0) == items,
{
    assert forall|i: int| 0 <= i < items.len() implies #[trigger] rotation(items, 0)[i]
        == items[i] by {
        vstd::arithmetic::div_mod::lemma_small_mod(i as nat, items.len());
    }
    assert(rotation(items, 0) =~= items);
}

/// A walk from the next offset is the walk with its first item put last.
pub proof fn law_next_walk_begins_one_further<T>(items: Seq<T>, offset: nat)
    requires
        items.len() > 0,
    ensures
        rotation(items, offset + 1) == rotation(items, offset).drop_first().push(
            rotation(items, offset)[0],
        ),
{
    let n = items.len() as int;
    let walk = rotation(items, offset);
    let next = rotation(items, offset + 1);
    assert forall|i: int| 0 <= i < n implies #[trigger] next[i] == walk.drop_first().push(
        walk[0],
    )[i] by {
        if i == n - 1 {
            assert(i + (offset + 1) == n + offset);
            vstd::arithmetic::div_mod::lemma_mod_add_multiples_vanish(offset as int, n);
        } else {
            assert(i + (offset + 1) == (i + 1) + offset);
        }
    }
    assert(next =~= walk.drop_first().push(walk[0]));
}

/// A walk visits every item exactly as often as it occurs, from whatever offset.
pub proof fn law_rotation_visits_all<T>(items: Seq<T>, offset: nat)
    ensures
        rotation(items, offset).to_multiset() == items.to_multiset(),
{
    if items.len() == 0 {
        assert(rotation(items, offset) =~= items);
    } else {
        let k = offset as int % items.len() as int;
        lemma_rotation_parts(items, offset);
        lemma_multiset_commutative(items.skip(k), items.take(k));
        lemma_multiset_commutative(items.take(k), items.skip(k));
        assert(items =~= items.take(k) + items.skip(k));
    }
}

/// Round robin: of as many walks as there are items, each from an offset one further than the
/// last, the first items are all the items, each exactly as often as it occurs.
pub proof fn law_round_robin_is_fair<T>(items: Seq<T>, offset: nat)
    requires
        items.len() > 0,
    ensures
        Seq::new(items.len(), |j: int| rotation(items, (offset + j) as nat)[0]).to_multiset()
            == items.to_multiset(),
{
    let firsts = Seq::new(items.len(), |j: int| rotation(items, (offset + j) as nat)[0]);
    assert(firsts =~= rotation(items, offset));
    law_rotation_visits_all(items, offset);
}

/// Sorts addresses in ascending order.
pub fn sort_ips(ips: &Vec<Ipv4Addr>) -> (sorted: Vec<Ipv4Addr>)
    ensures
        sorted@ == sorted_ips(ips@),
{
    let mut sorted: Vec<Ipv4Addr> = Vec::new();
    let mut i: usize = 0;
    assert(sorted@ =~= ips@.take(0));
    while i < ips.len()
        invariant
            i <= ips@.len(),
            sorted@.len() == i,
            sorted_by(sorted@, ipv4_leq()),
            sorted@.to_multiset() == ips@.take(i as int).to_multiset(),
        decreases ips@.len() - i,
    {
        let ip = ips[i];
        let mut place: usize = sorted.len();
        while place > 0 && sorted[place - 1].to_bits() > ip.to_bits()
            invariant
                place <= sorted@.len(),
                forall|j: int| place <= j < sorted@.len() ==> ip.bits() < #[trigger] sorted@[j].bits(),
            decreases place,
        {
            place = place - 1;
        }
        proof {
            let before = sorted@;
            let after = before.insert(place as int, ip);
            let leq = ipv4_leq();
            to_multiset_insert(before, place as int, ip);
            broadcast use group_to_multiset_ensures;

            assert(ips@.take(i + 1) =~= ips@.take(i as int).push(ip));
            assert forall|a: int, b: int| 0 <= a < b < after.len() implies #[trigger] leq(
                after[a],
                after[b],
            ) by {
                let shifted = |j: int| if j < place { j } else { j - 1 };
                if a != place && b != place {
                    assert(leq(before[shifted(a)], before[shifted(b)]));
                } else if b == place {
                    if a < place - 1 {
                        assert(leq(before[a], before[place - 1]));
                    }
                } else {
                    assert(ip.bits() < before[b - 1].bits());
                }
            }
        }
        sorted.insert(place, ip);
        i = i + 1;
    }
    assert(ips@.take(i as int) =~= ips@);
    proof {
        law_sorted_unique(ips@, sorted@);
    }
    sorted
}

} // verus!
