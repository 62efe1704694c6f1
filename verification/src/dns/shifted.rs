//! Addresses that are taken out of their places, from a place on and around the end.
use crate::dns::ip_addrs::with_port;
use crate::dns::{literal, records, rotation};
use crate::dns::literal::parse_literal;
use crate::dns::records::{ips_of, AResult};
use crate::dns::rotation::sort_ips;
use crate::net::SocketAddr;
use vstd::prelude::*;

verus! {

/// Either one item, or places that are emptied in turn from a place on and around the end.
pub enum SingleOrShifted<T> {
    Single(Option<T>),
    ShiftedVec(Vec<Option<T>>, usize),
}

/// The place that `index` counts to, around the end.
pub open spec fn place<T>(items: Seq<Option<T>>, index: nat) -> int {
    index as int % items.len() as int
}

impl<T> SingleOrShifted<T> {
    /// Whether an item can be taken: there is a place to take it from, and the place after it can
    /// be counted.
    pub open spec fn can_take(self) -> bool {
        match self {
            SingleOrShifted::Single(_) => true,
            SingleOrShifted::ShiftedVec(items, index) => items@.len() > 0 && index < usize::MAX,
        }
    }

    /// Takes the next item, which is none where the place is empty.
    pub fn next(&mut self) -> (item: Option<T>)
        requires
            old(self).can_take(),
        ensures
            match *old(self) {
                SingleOrShifted::Single(only) => item == only && *final(self)
                    == SingleOrShifted::<T>::Single(None),
                SingleOrShifted::ShiftedVec(items, index) => {
                    &&& item == items@[place(items@, index as nat)]
                    &&& *final(self) matches SingleOrShifted::ShiftedVec(rest, next)
                    &&& rest@ == items@.update(place(items@, index as nat), None)
                    &&& next == index + 1
                },
            },
    {
        match self {
            SingleOrShifted::Single(item) => item.take(),
            SingleOrShifted::ShiftedVec(items, index) => {
                let len: usize = items.len();
                let item = items[*index % len].take();
                *index = *index + 1;
                item
            },
        }
    }
}

/// Every item in a place of its own.
pub open spec fn filled<T>(items: Seq<T>) -> Seq<Option<T>> {
    items.map_values(|item: T| Some(item))
}

/// The places once `taken` items were taken from the place `index` on.
pub open spec fn places_after<T>(items: Seq<Option<T>>, index: nat, taken: nat) -> Seq<Option<T>>
    decreases taken,
{
    if taken == 0 {
        items
    } else {
        let before = places_after(items, index, (taken - 1) as nat);
        before.update(place(before, (index + taken - 1) as nat), None)
    }
}

/// A place is empty once it was counted to, and else as it was.
proof fn lemma_places_after<T>(items: Seq<Option<T>>, index: nat, taken: nat, k: int)
    requires
        items.len() > 0,
        0 <= k < items.len(),
    ensures
        places_after(items, index, taken).len() == items.len(),
        (exists|i: nat| i < taken && place(items, #[trigger] (index + i)) == k) ==> places_after(
            items,
            index,
            taken,
        )[k] is None,
        (forall|i: nat| i < taken ==> place(items, #[trigger] (index + i)) != k) ==> places_after(
            items,
            index,
            taken,
        )[k] == items[k],
    decreases taken,
{
    if taken > 0 {
        let last = (taken - 1) as nat;
        lemma_places_after(items, index, last, k);
        if exists|i: nat| i < taken && place(items, #[trigger] (index + i)) == k {
            let i = choose|i: nat| i < taken && place(items, #[trigger] (index + i)) == k;
            if i < last {
                assert(place(items, (index + i)) == k);
            } else {
                assert(i == last);
            }
        } else {
            assert(place(items, (index + last)) != k);
        }
    }
}

/// From full places, as many items are taken as there are places: the walk over them from the
/// place `index` around the end. Every item taken after that is none.
pub proof fn law_taken_once_around<T>(items: Seq<T>, index: nat, taken: nat)
    requires
        items.len() > 0,
    ensures
        ({
            let full = filled(items);
            let left = places_after(full, index, taken);
            left[place(left, index + taken)] == (if taken < items.len() {
                Some(rotation::rotation(items, index)[taken as int])
            } else {
                None
            })
        }),
{
    let n = items.len() as int;
    let full = filled(items);
    let k = place(full, index + taken);
    lemma_places_after(full, index, taken, k);
    if taken < n {
        assert forall|i: nat| i < taken implies place(full, #[trigger] (index + i)) != k by {
            if place(full, index + i) == k {
                let a = (index + i) as int / n;
                let b = (index + taken) as int / n;
                vstd::arithmetic::div_mod::lemma_fundamental_div_mod((index + i) as int, n);
                vstd::arithmetic::div_mod::lemma_fundamental_div_mod((index + taken) as int, n);
                assert(n * b - n * a == taken - i);
                assert(false) by (nonlinear_arith)
                    requires
                        n * b - n * a == taken - i,
                        0 < taken - i < n,
                ;
            }
        }
        assert(full[k] == Some(items[k]));
    } else {
        let i = (taken as int % n) as nat;
        let w = taken as int / n;
        vstd::arithmetic::div_mod::lemma_fundamental_div_mod(taken as int, n);
        assert(index + taken == n * w + (index + i));
        vstd::arithmetic::div_mod::lemma_mod_multiples_vanish(w, (index + i) as int, n);
        assert(place(full, index + i) == k);
    }
}

/// Socket addresses that are handed out one by one: one address, or the addresses of an answer from
/// a place on and around the end.
pub struct IpAddrs {
    inner: SingleOrShifted<SocketAddr>,
}

impl IpAddrs {
    /// The addresses that are left.
    pub closed spec fn inner(self) -> SingleOrShifted<SocketAddr> {
        self.inner
    }

    /// The addresses of the records at `port`, from the place `index` on. They are sorted, as the
    /// choice by `index` needs a set order.
    pub fn new(port: u16, a_results: Vec<AResult>, index: usize) -> (addrs: IpAddrs)
        ensures
            addrs.inner() matches SingleOrShifted::ShiftedVec(items, start) && start == index
                && items@ == filled(
                rotation::socket_addrs(
                    rotation::sorted_ips(records::record_ips(a_results@)),
                    port,
                ),
            ),
    {
        let sorted = sort_ips(&ips_of(&a_results));
        let addrs = with_port(&sorted, port);
        let mut items: Vec<Option<SocketAddr>> = Vec::new();
        let mut i: usize = 0;
        while i < addrs.len()
            invariant
                i <= addrs@.len(),
                items@ == filled(addrs@.take(i as int)),
            decreases addrs@.len() - i,
        {
            items.push(Some(addrs[i]));
            assert(items@ =~= filled(addrs@.take(i + 1)));
            i = i + 1;
        }
        assert(addrs@.take(i as int) =~= addrs@);
        IpAddrs { inner: SingleOrShifted::ShiftedVec(items, index) }
    }

    /// The one address of a host that is written as an address.
    pub fn try_parse(host: &str, port: u16) -> (addrs: Option<IpAddrs>)
        ensures
            match literal::literal_addr(host@, port) {
                Some(addr) => addrs matches Some(a) && a.inner() == SingleOrShifted::Single(
                    Some(addr),
                ),
                None => addrs is None,
            },
    {
        match parse_literal(host, port) {
            Some(addr) => Some(IpAddrs { inner: SingleOrShifted::Single(Some(addr)) }),
            None => None,
        }
    }

    /// Hands out the next address.
    pub fn next(&mut self) -> (addr: Option<SocketAddr>)
        requires
            old(self).inner().can_take(),
        ensures
            match old(self).inner() {
                SingleOrShifted::Single(only) => addr == only && final(self).inner()
                    == SingleOrShifted::<SocketAddr>::Single(None),
                SingleOrShifted::ShiftedVec(items, index) => {
                    &&& addr == items@[place(items@, index as nat)]
                    &&& final(self).inner() matches SingleOrShifted::ShiftedVec(rest, next)
                    &&& rest@ == items@.update(place(items@, index as nat), None)
                    &&& next == index + 1
                },
            },
    {
        self.inner.next()
    }
}

} // verus!
