//! Address records, as a resolver answers them.
use crate::net::Ipv4Addr;
use vstd::prelude::*;

verus! {

/// An address record: an address, and for how many seconds it may be kept.
#[derive(Debug, Clone, Copy, PartialEq, Eq)]
pub struct AResult {
    pub ipv4: Ipv4Addr,
    pub ttl: i32,
}

/// The addresses of the records, in the order of the answer.
pub open spec fn record_ips(results: Seq<AResult>) -> Seq<Ipv4Addr> {
    Seq::new(results.len(), |i: int| results[i].ipv4)
}

/// The least time to live among the records. There is none where there are no records.
pub open spec fn least_ttl(results: Seq<AResult>) -> Option<i32>
    decreases results.len(),
{
    if results.len() == 0 {
        None
    } else {
        let last = results.last().ttl;
        match least_ttl(results.drop_last()) {
            Some(ttl) if ttl <= last => Some(ttl),
            _ => Some(last),
        }
    }
}

/// The least time to live is that of a record, and no record has a lesser one.
pub proof fn law_least_ttl(results: Seq<AResult>)
    ensures
        least_ttl(results) is None <==> results.len() == 0,
        least_ttl(results) matches Some(ttl) ==> {
            &&& exists|i: int| 0 <= i < results.len() && (#[trigger] results[i]).ttl == ttl
            &&& forall|i: int| 0 <= i < results.len() ==> ttl <= (#[trigger] results[i]).ttl
        },
    decreases results.len(),
{
    if results.len() > 0 {
        let rest = results.drop_last();
        law_least_ttl(rest);
        assert forall|i: int| 0 <= i < results.len() implies least_ttl(results).unwrap() <= (
        #[trigger] results[i]).ttl by {
            if i < rest.len() {
                assert(rest[i] == results[i]);
            }
        }
        match least_ttl(rest) {
            Some(ttl) if ttl <= results.last().ttl => {
                let i = choose|i: int| 0 <= i < rest.len() && (#[trigger] rest[i]).ttl == ttl;
                assert(results[i].ttl == ttl);
            },
            _ => {
                assert(results[results.len() - 1].ttl == least_ttl(results).unwrap());
            },
        }
    }
}

/// The addresses of the records.
pub fn ips_of(results: &Vec<AResult>) -> (ips: Vec<Ipv4Addr>)
    ensures
        ips@ == record_ips(results@),
{
    let mut ips: Vec<Ipv4Addr> = Vec::new();
    let mut i: usize = 0;
    while i < results.len()
        invariant
            i <= results@.len(),
            ips@ == record_ips(results@.take(i as int)),
        decreases results@.len() - i,
    {
        ips.push(results[i].ipv4);
        assert(ips@ =~= record_ips(results@.take(i + 1)));
        i = i + 1;
    }
    assert(results@.take(i as int) =~= results@);
    ips
}

/// The least time to live among the records.
pub fn min_ttl(results: &Vec<AResult>) -> (ttl: Option<i32>)
    ensures
        ttl == least_ttl(results@),
{
    let mut least: Option<i32> = None;
    let mut i: usize = 0;
    assert(results@.take(0).len() == 0);
    while i < results.len()
        invariant
            i <= results@.len(),
            least == least_ttl(results@.take(i as int)),
        decreases results@.len() - i,
    {
        assert(results@.take(i + 1).drop_last() =~= results@.take(i as int));
        let ttl: i32 = results[i].ttl;
        least = match least {
            Some(other) if other <= ttl => Some(other),
            _ => Some(ttl),
        };
        i = i + 1;
    }
    assert(results@.take(i as int) =~= results@);
    least
}

} // verus!
