//! Counters by which the addresses of each host are taken in turn.
use std::sync::Arc;
use vstd::hash_map::StringHashMap;
use vstd::prelude::*;

verus! {

/// For each host, how far its addresses have been shifted. Its view maps each host to that number.
pub struct RoundRobinMap {
    shifts: StringHashMap<usize>,
}

impl View for RoundRobinMap {
    type V = Map<Seq<char>, usize>;

    closed spec fn view(&self) -> Map<Seq<char>, usize> {
        self.shifts@
    }
}

/// The shift of `host` that comes next: none for a new host, else one more than before, counted
/// around the end of the numbers.
pub open spec fn next_shift(shifts: Map<Seq<char>, usize>, host: Seq<char>) -> usize {
    if !shifts.contains_key(host) || shifts[host] == usize::MAX {
        0
    } else {
        (shifts[host] + 1) as usize
    }
}

/// The shifts once the next shift of `host` was taken.
pub open spec fn shifted(shifts: Map<Seq<char>, usize>, host: Seq<char>) -> Map<Seq<char>, usize> {
    shifts.insert(host, next_shift(shifts, host))
}

impl RoundRobinMap {
    /// No host has been shifted.
    pub fn new() -> (map: RoundRobinMap)
        ensures
            map@ == Map::<Seq<char>, usize>::empty(),
    {
        RoundRobinMap { shifts: StringHashMap::new() }
    }

    /// Takes the next shift of `host`.
    pub fn get_and_incr(&mut self, host: Arc<String>) -> (shift: usize)
        ensures
            shift == next_shift(old(self)@, host@),
            final(self)@ == shifted(old(self)@, host@),
    {
        let shift: usize = match self.shifts.get(host.as_str()) {
            Some(before) => before.wrapping_add(1),
            None => 0,
        };
        self.shifts.insert(host.as_str().to_owned(), shift);
        shift
    }
}

/// The shifts once `count` shifts of `host` were taken.
pub open spec fn shifted_times(
    shifts: Map<Seq<char>, usize>,
    host: Seq<char>,
    count: nat,
) -> Map<Seq<char>, usize>
    decreases count,
{
    if count == 0 {
        shifts
    } else {
        shifted(shifted_times(shifts, host, (count - 1) as nat), host)
    }
}

/// Shifts of one host leave those of every other host.
pub proof fn law_hosts_are_independent(
    shifts: Map<Seq<char>, usize>,
    host: Seq<char>,
    other: Seq<char>,
)
    requires
        host != other,
    ensures
        next_shift(shifted(shifts, host), other) == next_shift(shifts, other),
{
}

/// The shifts of a host count up, from 0 for a new host, until they reach the greatest number.
pub proof fn law_shifts_count_up(shifts: Map<Seq<char>, usize>, host: Seq<char>, count: nat)
    requires
        next_shift(shifts, host) + count <= usize::MAX,
    ensures
        next_shift(shifted_times(shifts, host, count), host) == next_shift(shifts, host) + count,
        !shifts.contains_key(host) ==> next_shift(shifts, host) == 0,
    decreases count,
{
    if count > 0 {
        law_shifts_count_up(shifts, host, (count - 1) as nat);
    }
}

/// A shift is one more than the shift before it, or 0 after the greatest number.
pub proof fn law_next_follows(shifts: Map<Seq<char>, usize>, host: Seq<char>)
    ensures
        next_shift(shifted(shifts, host), host) == (if next_shift(shifts, host) == usize::MAX {
            0
        } else {
            next_shift(shifts, host) + 1
        }),
{
}

/// Taking a shift of a host gives 0 to a new host and one more than before to every other, counted
/// around the end of the numbers, and leaves the counters of all other hosts.
pub proof fn law_one_shift_at_a_time(map: &mut RoundRobinMap, host: Arc<String>, shift: usize)
    requires
        call_ensures(RoundRobinMap::get_and_incr, (map, host), shift),
    ensures
        !old(map)@.contains_key(host@) ==> shift == 0,
        old(map)@.contains_key(host@) ==> shift == (if old(map)@[host@] < usize::MAX {
            old(map)@[host@] + 1
        } else {
            0
        }),
        final(map)@.contains_key(host@),
        final(map)@[host@] == shift,
        forall|other: Seq<char>|
            other != host@ ==> {
                &&& #[trigger] final(map)@.contains_key(other) <==> old(map)@.contains_key(other)
                &&& final(map)@[other] == old(map)@[other]
            },
{
}

/// New counters count no host.
pub proof fn law_new_counters_are_empty(map: RoundRobinMap, host: Seq<char>)
    requires
        call_ensures(RoundRobinMap::new, (), map),
    ensures
        !map@.contains_key(host),
{
}

} // verus!
