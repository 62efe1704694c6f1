//! The tables that all connections of a connector share.
use crate::http_connector::http_connecting::ResultCache;
use crate::http_connector::round_robin::RoundRobinMap;
use crate::net::Ipv4Addr;
use antidote::{Mutex, RwLock};
use vstd::prelude::*;

verus! {

/// The lock of `antidote` that one holder has at a time, carried as an opaque value.
#[verifier::external_type_specification]
#[verifier::external_body]
#[verifier::reject_recursive_types(T)]
pub struct ExMutex<T: ?Sized>(antidote::Mutex<T>);

/// The lock of `antidote` that one writer or many readers have at a time, carried as an opaque
/// value.
#[verifier::external_type_specification]
#[verifier::external_body]
#[verifier::reject_recursive_types(T)]
pub struct ExRwLock<T: ?Sized>(antidote::RwLock<T>);

/// `antidote::Mutex::new` on counters of which none was used. Nothing is claimed of the lock: what
/// is behind it changes with every connection that uses it.
#[verifier::external_body]
pub(crate) fn lock_shifts(map: RoundRobinMap) -> (lock: Mutex<RoundRobinMap>)
    requires
        map@ == Map::<Seq<char>, usize>::empty(),
{
    Mutex::new(map)
}

/// `antidote::RwLock::new` on an empty cache. Nothing is claimed of the lock: what is behind it
/// changes with every connection that uses it.
#[verifier::external_body]
pub(crate) fn lock_results(cache: ResultCache) -> (lock: RwLock<ResultCache>)
    requires
        cache@ == Map::<Seq<char>, (Vec<Ipv4Addr>, u128)>::empty(),
{
    RwLock::new(cache)
}

} // verus!
