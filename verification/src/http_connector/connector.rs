//! The connector: what it is asked to connect to, and how it is set.
use crate::http_connector::http_connecting::{HttpConnecting, ResultCache, State};
use crate::http_connector::http_connecting;
use crate::http_connector::invalid_url::InvalidUrl;
use crate::http_connector::round_robin::RoundRobinMap;
use crate::http_connector::shared::{lock_results, lock_shifts};
use crate::net::{IpAddr, Ipv4Addr};
use crate::time::Duration;
use crate::timed_cache::TimedCache;
use antidote::{Mutex, RwLock};
use std::sync::Arc;
use vstd::prelude::*;

verus! {

/// What is to be connected to. A URL without a scheme or a host has an empty one.
#[derive(Debug, PartialEq, Eq)]
pub struct Destination {
    pub scheme: String,
    pub host: String,
    pub port: Option<u16>,
}

/// A letter of the Latin alphabet in lower case, and every other character as it is.
pub open spec fn lower(c: char) -> char {
    if 'A' <= c && c <= 'Z' {
        (c as u32 - 'A' as u32 + 'a' as u32) as char
    } else {
        c
    }
}

/// Whether two texts are the same but for the case of Latin letters.
pub open spec fn same_but_case(a: Seq<char>, b: Seq<char>) -> bool {
    &&& a.len() == b.len()
    &&& forall|i: int| 0 <= i < a.len() ==> lower(#[trigger] a[i]) == lower(b[i])
}

/// The equality of text with `http::uri::Scheme`, for `Scheme::HTTP`: the text is `http` but for
/// the case of its letters.
#[verifier::external_body]
fn is_http(scheme: &str) -> (is: bool)
    ensures
        is == same_but_case(scheme@, "http"@),
{
    scheme == &http::uri::Scheme::HTTP
}

/// The equality of text with `http::uri::Scheme`, for `Scheme::HTTPS`: the text is `https` but for
/// the case of its letters.
#[verifier::external_body]
fn is_https(scheme: &str) -> (is: bool)
    ensures
        is == same_but_case(scheme@, "https"@),
{
    scheme == &http::uri::Scheme::HTTPS
}

/// The port that `dst` is connected to, or why it cannot be connected to. Where the `http` scheme is
/// enforced, every other scheme is refused; else only a missing one is.
pub open spec fn accepted(enforce_http: bool, dst: Destination) -> Result<u16, InvalidUrl> {
    if enforce_http && !same_but_case(dst.scheme@, "http"@) {
        Err(InvalidUrl::NotHttp)
    } else if !enforce_http && dst.scheme@.len() == 0 {
        Err(InvalidUrl::MissingScheme)
    } else if dst.host@.len() == 0 {
        Err(InvalidUrl::MissingAuthority)
    } else {
        Ok(
            match dst.port {
                Some(port) => port,
                None => if same_but_case(dst.scheme@, "https"@) {
                    443
                } else {
                    80
                },
            },
        )
    }
}

/// Threads that queries are run on: how many, and what their names begin with.
#[derive(Debug, Clone, Copy, PartialEq, Eq)]
pub struct PoolSettings {
    pub name_prefix: &'static str,
    pub pool_size: usize,
}

/// A connector for the `http` scheme.
///
/// `E` runs the queries for the addresses of hosts, and `H` drives the sockets. All connections of a
/// connector, and of its clones, take turns by the same counters and use the same cache.
pub struct HttpConnector<E, H> {
    pub executor: E,
    pub enforce_http: bool,
    pub handle: Option<H>,
    pub keep_alive_timeout: Option<Duration>,
    pub nodelay: bool,
    pub local_address: Option<IpAddr>,
    pub round_robin_map: Arc<Mutex<RoundRobinMap>>,
    pub result_cache: Arc<RwLock<ResultCache>>,
}

impl<E: Clone, H: Clone> Clone for HttpConnector<E, H> {
    /// A connector with the same settings, which shares the tables of this one.
    fn clone(&self) -> (connector: HttpConnector<E, H>)
        ensures
            cloned(self.executor, connector.executor),
            http_connecting::cloned_handle(self.handle, connector.handle),
            connector == (HttpConnector {
                executor: connector.executor,
                handle: connector.handle,
                ..*self
            }),
    {
        HttpConnector {
            executor: self.executor.clone(),
            enforce_http: self.enforce_http,
            handle: self.handle.clone(),
            keep_alive_timeout: self.keep_alive_timeout,
            nodelay: self.nodelay,
            local_address: self.local_address,
            round_robin_map: Arc::clone(&self.round_robin_map),
            result_cache: Arc::clone(&self.result_cache),
        }
    }
}

impl<H> HttpConnector<PoolSettings, H> {
    /// A connector that resolves hosts on `threads` threads.
    pub fn new(threads: usize) -> (connector: HttpConnector<PoolSettings, H>)
        requires
            threads > 0,
        ensures
            connector.executor.name_prefix@ == "hyper-dns"@,
            connector.executor.pool_size == threads,
            connector.handle is None,
            connector.has_default_settings(),
            connector.has_new_tables(),
    {
        HttpConnector::new_with_handle_opt(threads, None)
    }

    /// A connector that resolves hosts on `threads` threads, with a specific handle.
    pub fn new_with_handle(threads: usize, handle: H) -> (connector: HttpConnector<PoolSettings, H>)
        requires
            threads > 0,
        ensures
            connector.executor.name_prefix@ == "hyper-dns"@,
            connector.executor.pool_size == threads,
            connector.handle == Some(handle),
            connector.has_default_settings(),
            connector.has_new_tables(),
    {
        HttpConnector::new_with_handle_opt(threads, Some(handle))
    }

    fn new_with_handle_opt(threads: usize, handle: Option<H>) -> (connector: HttpConnector<
        PoolSettings,
        H,
    >)
        requires
            threads > 0,
        ensures
            connector.executor.name_prefix@ == "hyper-dns"@,
            connector.executor.pool_size == threads,
            connector.handle == handle,
            connector.has_default_settings(),
            connector.has_new_tables(),
    {
        let pool = PoolSettings { name_prefix: "hyper-dns", pool_size: threads };
        HttpConnector::new_with_executor(pool, handle)
    }
}

impl<E, H> HttpConnector<E, H> {
    /// The settings of a new connector: the `http` scheme is enforced, and nothing else is asked of
    /// the sockets.
    pub open spec fn has_default_settings(self) -> bool {
        &&& self.enforce_http
        &&& self.keep_alive_timeout is None
        &&& !self.nodelay
        &&& self.local_address is None
    }

    /// Whether each of the two locks was made on an empty table.
    pub closed spec fn has_new_tables(self) -> bool {
        &&& exists|map: RoundRobinMap|
            map@ == Map::<Seq<char>, usize>::empty() && #[trigger] call_ensures(
                lock_shifts,
                (map,),
                *self.round_robin_map,
            )
        &&& exists|cache: ResultCache|
            cache@ == Map::<Seq<char>, (Vec<Ipv4Addr>, u128)>::empty() && #[trigger] call_ensures(
                lock_results,
                (cache,),
                *self.result_cache,
            )
    }

    /// A connector that runs queries on `executor`.
    pub fn new_with_executor(executor: E, handle: Option<H>) -> (connector: HttpConnector<E, H>)
        ensures
            connector.executor == executor,
            connector.handle == handle,
            connector.has_default_settings(),
            connector.has_new_tables(),
    {
        let map = RoundRobinMap::new();
        let cache: ResultCache = TimedCache::new();
        let ghost no_shifts = map;
        let ghost no_results = cache;
        let map = lock_shifts(map);
        let cache = lock_results(cache);
        let connector = HttpConnector {
            executor,
            enforce_http: true,
            handle,
            keep_alive_timeout: None,
            nodelay: false,
            local_address: None,
            round_robin_map: Arc::new(map),
            result_cache: Arc::new(cache),
        };
        assert(call_ensures(lock_shifts, (no_shifts,), *connector.round_robin_map));
        assert(call_ensures(lock_results, (no_results,), *connector.result_cache));
        connector
    }

    /// Option to enforce the `http` scheme on every URL.
    ///
    /// Enabled by default.
    pub fn enforce_http(&mut self, is_enforced: bool)
        ensures
            *final(self) == (HttpConnector { enforce_http: is_enforced, ..*old(self) }),
    {
        self.enforce_http = is_enforced;
    }

    /// Sets that all sockets have `SO_KEEPALIVE` set with the supplied duration.
    ///
    /// If `None`, the option will not be set. Default is `None`.
    pub fn set_keepalive(&mut self, dur: Option<Duration>)
        ensures
            *final(self) == (HttpConnector { keep_alive_timeout: dur, ..*old(self) }),
    {
        self.keep_alive_timeout = dur;
    }

    /// Sets that all sockets have `SO_NODELAY` set to the supplied value.
    ///
    /// Default is `false`.
    pub fn set_nodelay(&mut self, nodelay: bool)
        ensures
            *final(self) == (HttpConnector { nodelay, ..*old(self) }),
    {
        self.nodelay = nodelay;
    }

    /// Sets that all sockets are bound to the configured address before connection.
    ///
    /// If `None`, the sockets will not be bound, unless the system asks for it. Default is `None`.
    pub fn set_local_address(&mut self, addr: Option<IpAddr>)
        ensures
            *final(self) == (HttpConnector { local_address: addr, ..*old(self) }),
    {
        self.local_address = addr;
    }

    /// Begins to connect to `dst`.
    pub fn connect(&self, dst: Destination) -> (connecting: HttpConnecting<E, H>) where
        E: Clone,
        H: Clone,

        ensures
            http_connecting::cloned_handle(self.handle, connecting.handle),
            match accepted(self.enforce_http, dst) {
                Ok(accepted_port) => {
                    &&& connecting.state matches State::Lazy(
                        executor,
                        host,
                        port,
                        local_addr,
                        map,
                        results,
                    )
                    &&& cloned(self.executor, executor)
                    &&& host@ == dst.host@
                    &&& port == accepted_port
                    &&& local_addr == self.local_address
                    &&& map == self.round_robin_map
                    &&& results == self.result_cache
                    &&& connecting.keep_alive_timeout == self.keep_alive_timeout
                    &&& connecting.nodelay == self.nodelay
                },
                Err(err) => {
                    &&& connecting.state == State::<E>::Error(Some(err))
                    &&& connecting.keep_alive_timeout is None
                    &&& !connecting.nodelay
                },
            },
    {
        let scheme = dst.scheme.as_str();
        if self.enforce_http {
            if !is_http(scheme) {
                return HttpConnecting::from_invalid_url(InvalidUrl::NotHttp, &self.handle);
            }
        } else if scheme.is_empty() {
            return HttpConnecting::from_invalid_url(InvalidUrl::MissingScheme, &self.handle);
        }
        if dst.host.as_str().is_empty() {
            return HttpConnecting::from_invalid_url(InvalidUrl::MissingAuthority, &self.handle);
        }
        let port: u16 = match dst.port {
            Some(port) => port,
            None => if is_https(scheme) {
                443
            } else {
                80
            },
        };
        let host = Arc::new(dst.host);
        HttpConnecting {
            state: State::Lazy(
                self.executor.clone(),
                host,
                port,
                self.local_address,
                Arc::clone(&self.round_robin_map),
                Arc::clone(&self.result_cache),
            ),
            handle: self.handle.clone(),
            keep_alive_timeout: self.keep_alive_timeout,
            nodelay: self.nodelay,
        }
    }
}

} // verus!
