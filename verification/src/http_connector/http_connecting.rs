//! The work of connecting to a URL, from its host to a connected socket.
use crate::dns::ip_addrs::IpAddrs;
use crate::dns::{literal, records, rotation};
use crate::dns::records::{ips_of, min_ttl, AResult};
use crate::http_connector::{connecting_tcp, round_robin};
use crate::http_connector::connecting_tcp::{ConnectPlan, ConnectingTcp, TcpAction, TcpEvent};
use crate::http_connector::invalid_url::InvalidUrl;
use crate::http_connector::round_robin::RoundRobinMap;
use crate::net::{IpAddr, Ipv4Addr, SocketAddr};
use crate::time::Duration;
use crate::timed_cache::TimedCache;
use crate::timed_cache;
use antidote::{Mutex, RwLock};
use std::sync::Arc;
use vstd::prelude::*;

verus! {

/// The addresses of hosts that were resolved, while they may be kept.
pub type ResultCache = TimedCache<Arc<String>, Vec<Ipv4Addr>>;

/// How far the work has come.
pub enum State<E> {
    /// Nothing was done yet: how to run a query, the host, the port, the local address that the
    /// socket is to be bound to, and the tables of the connector.
    Lazy(
        E,
        Arc<String>,
        u16,
        Option<IpAddr>,
        Arc<Mutex<RoundRobinMap>>,
        Arc<RwLock<ResultCache>>,
    ),
    /// The addresses of the host are being asked for.
    Resolving(
        Arc<String>,
        u16,
        Option<IpAddr>,
        Arc<Mutex<RoundRobinMap>>,
        Arc<RwLock<ResultCache>>,
    ),
    /// The addresses are being tried.
    Connecting(ConnectingTcp),
    /// The URL cannot be connected to; the error is there until it was handed out.
    Error(Option<InvalidUrl>),
}

/// The work of connecting to a URL.
#[must_use]
pub struct HttpConnecting<E, H> {
    pub state: State<E>,
    pub handle: Option<H>,
    pub keep_alive_timeout: Option<Duration>,
    pub nodelay: bool,
}

/// What is to be done once a host was looked up.
pub enum Lookup<E> {
    /// Drive the connection on.
    Connect,
    /// Ask for the addresses of the host.
    Resolve(E),
}

/// What has happened to the work.
#[derive(Debug, Clone, Copy, PartialEq, Eq)]
pub enum Event {
    /// It is to be driven on.
    Resume,
    /// The query has not been answered yet.
    AnswerPending,
    /// The query has failed.
    AnswerFailed,
    /// The socket that was to be opened is open, and is connecting.
    SocketOpened,
    /// The socket that was to be opened could not be opened.
    SocketOpenFailed,
    /// The socket has not connected yet.
    SocketPending,
    /// The socket has failed.
    SocketFailed,
    /// The socket has connected.
    SocketConnected,
}

/// What is to be done about the work.
#[derive(Debug, Clone, Copy, PartialEq, Eq)]
pub enum Action {
    /// Look up the host.
    LookUp,
    /// Ask the query how it stands. An answer is taken as it comes.
    PollAnswer,
    /// Ask the socket how it stands.
    PollSocket,
    /// Open a socket.
    Open(ConnectPlan),
    /// Fail with the error of the socket that could not be opened.
    FailOpen,
    /// Report that there is nothing to report yet.
    NotReady,
    /// Set these options on the socket, and report that it is connected.
    Finish(SocketOptions),
    /// Fail with the error of the query.
    FailAnswer,
    /// Fail with the error of the last socket.
    GiveUp,
    /// Fail because the URL cannot be connected to.
    Refuse(InvalidUrl),
}

/// What an event is to the attempts to reach an address.
pub open spec fn tcp_event(event: Event) -> Option<TcpEvent> {
    match event {
        Event::Resume => Some(TcpEvent::Resume),
        Event::SocketOpened => Some(TcpEvent::Opened),
        Event::SocketOpenFailed => Some(TcpEvent::OpenFailed),
        Event::SocketFailed => Some(TcpEvent::Failed),
        _ => None,
    }
}

/// The action for the work that an action for the attempts comes to.
pub open spec fn lifted(action: TcpAction) -> Action {
    match action {
        TcpAction::Poll => Action::PollSocket,
        TcpAction::Open(plan) => Action::Open(plan),
        TcpAction::FailOpen => Action::FailOpen,
        TcpAction::GiveUp => Action::GiveUp,
    }
}

/// What is to be set on a socket that is connected.
#[derive(Debug, Clone, Copy, PartialEq, Eq)]
pub struct SocketOptions {
    pub keepalive: Option<Duration>,
    pub nodelay: bool,
}

/// The addresses `ips` at `port` in the order in which they are tried.
pub open spec fn walk(ips: Seq<Ipv4Addr>, port: u16, shift: usize) -> Seq<SocketAddr> {
    rotation::rotation(rotation::socket_addrs(rotation::sorted_ips(ips), port), shift as nat)
}

/// Whether `after` is a clone of `before`.
pub open spec fn cloned_handle<H: Clone>(before: Option<H>, after: Option<H>) -> bool {
    match (before, after) {
        (Some(b), Some(a)) => cloned(b, a),
        (None, None) => true,
        _ => false,
    }
}

impl<E> State<E> {
    /// Whether `addrs` are to be tried, none of which was tried yet.
    pub open spec fn tries(
        self,
        addrs: Seq<SocketAddr>,
        position: nat,
        local_addr: Option<IpAddr>,
    ) -> bool {
        &&& self matches State::Connecting(tcp)
        &&& tcp.addrs@ == addrs
        &&& tcp.addrs.position() == position
        &&& tcp.local_addr == local_addr
        &&& !tcp.opening
        &&& !tcp.connecting
    }

    /// Whether the addresses are being tried, and `event` can happen to the attempts.
    pub open spec fn can_drive(self, event: TcpEvent) -> bool {
        self matches State::Connecting(tcp) && tcp.expects(event)
    }

    /// What driving the connection on comes to.
    pub open spec fn driven(
        self,
        event: TcpEvent,
        must_bind: bool,
        after: State<E>,
        action: TcpAction,
    ) -> bool {
        &&& self matches State::Connecting(was)
        &&& after matches State::Connecting(tcp)
        &&& action == connecting_tcp::tcp_action(
            was.addrs@,
            was.local_addr,
            was.connecting,
            event,
            must_bind,
        )
        &&& tcp.addrs@ == connecting_tcp::tcp_rest(was.addrs@, was.connecting, event)
        &&& tcp.addrs.position() == was.addrs.position() + (if action is Open {
            1int
        } else {
            0
        })
        &&& tcp.local_addr == was.local_addr
        &&& tcp.opening == (action is Open)
        &&& tcp.connecting == (was.connecting || event is Opened)
    }
}

impl<E, H> HttpConnecting<E, H> {
    /// Whether only the state may differ.
    pub open spec fn same_settings(self, other: HttpConnecting<E, H>) -> bool {
        &&& self.handle == other.handle
        &&& self.keep_alive_timeout == other.keep_alive_timeout
        &&& self.nodelay == other.nodelay
    }

    /// What looking up the host at `now` comes to. A host that is written as an address needs no
    /// look-up. The addresses of a host that are in the cache are tried from the next shift of the
    /// host on. Else the host is to be resolved.
    pub open spec fn looked_up(
        self,
        entries: Map<Seq<char>, (Vec<Ipv4Addr>, u128)>,
        shifts: Map<Seq<char>, usize>,
        now: Duration,
        after: HttpConnecting<E, H>,
        shifts_after: Map<Seq<char>, usize>,
        lookup: Lookup<E>,
    ) -> bool {
        &&& after.same_settings(self)
        &&& self.state matches State::Lazy(executor, host, port, local_addr, map, results)
        &&& match (literal::literal_addr(host@, port), timed_cache::lookup(entries, host@, now)) {
            (Some(addr), _) => {
                &&& lookup is Connect
                &&& after.state.tries(seq![addr], 0, local_addr)
                &&& shifts_after == shifts
            },
            (None, Some(ips)) => {
                let shift = round_robin::next_shift(shifts, host@);
                &&& lookup is Connect
                &&& after.state.tries(walk(ips@, port, shift), shift as nat, local_addr)
                &&& shifts_after == round_robin::shifted(shifts, host@)
            },
            (None, None) => {
                &&& lookup == Lookup::Resolve(executor)
                &&& after.state == State::<E>::Resolving(host, port, local_addr, map, results)
                &&& shifts_after == shifts
            },
        }
    }

    /// What an answer at `now` comes to. Its addresses are tried from the next shift of the host
    /// on, and are kept as long as each of them may be. An answer without addresses is not kept.
    pub open spec fn answered(
        self,
        results: Seq<AResult>,
        entries: Map<Seq<char>, (Vec<Ipv4Addr>, u128)>,
        shifts: Map<Seq<char>, usize>,
        now: Duration,
        after: HttpConnecting<E, H>,
        entries_after: Map<Seq<char>, (Vec<Ipv4Addr>, u128)>,
        shifts_after: Map<Seq<char>, usize>,
    ) -> bool {
        &&& after.same_settings(self)
        &&& self.state matches State::Resolving(host, port, local_addr, _, _)
        &&& {
            let ips = records::record_ips(results);
            let shift = round_robin::next_shift(shifts, host@);
            &&& after.state.tries(walk(ips, port, shift), shift as nat, local_addr)
            &&& shifts_after == round_robin::shifted(shifts, host@)
            &&& match records::least_ttl(results) {
                Some(ttl) => {
                    let kept = entries_after[host@].0;
                    &&& kept@ == ips
                    &&& entries_after == timed_cache::stored(
                        entries,
                        host@,
                        kept,
                        Duration { secs: ttl as u64, nanos: 0 },
                        now,
                    )
                },
                None => entries_after == entries,
            }
        }
    }

    /// Whether an event can happen as the work stands.
    pub open spec fn expects(self, event: Event) -> bool {
        match self.state {
            State::Lazy(..) => event is Resume,
            State::Resolving(..) => event is Resume || event is AnswerPending
                || event is AnswerFailed,
            State::Connecting(tcp) => match tcp_event(event) {
                Some(e) => tcp.expects(e),
                None => !tcp.opening && tcp.connecting && (event is SocketPending
                    || event is SocketConnected),
            },
            State::Error(err) => event is Resume && err is Some,
        }
    }

    /// What an event comes to.
    pub open spec fn polled(
        self,
        event: Event,
        must_bind: bool,
        after: HttpConnecting<E, H>,
        action: Action,
    ) -> bool {
        match self.state {
            State::Lazy(..) => after == self && action == Action::LookUp,
            State::Resolving(..) => after == self && action == (match event {
                Event::AnswerPending => Action::NotReady,
                Event::AnswerFailed => Action::FailAnswer,
                _ => Action::PollAnswer,
            }),
            State::Connecting(tcp) => match tcp_event(event) {
                Some(e) => {
                    let step = connecting_tcp::tcp_action(
                        tcp.addrs@,
                        tcp.local_addr,
                        tcp.connecting,
                        e,
                        must_bind,
                    );
                    &&& after.same_settings(self)
                    &&& self.state.driven(e, must_bind, after.state, step)
                    &&& action == lifted(step)
                },
                None => after == self && action == (if event is SocketPending {
                    Action::NotReady
                } else {
                    Action::Finish(
                        SocketOptions {
                            keepalive: self.keep_alive_timeout,
                            nodelay: self.nodelay,
                        },
                    )
                }),
            },
            State::Error(err) => after.same_settings(self) && after.state == State::<E>::Error(None)
                && Some(action) == (match err {
                Some(e) => Some(Action::Refuse(e)),
                None => None,
            }),
        }
    }

    /// Whether an event can happen as the work stands. None can where an error was handed out
    /// already. While a socket is being opened, it is opened or it is not, and nothing else happens.
    /// Where no socket is connecting and no address is left, or the place of the next address can no
    /// longer be counted, the work cannot be driven on.
    pub fn is_expected(&self, event: Event) -> (expected: bool)
        ensures
            expected == self.expects(event),
    {
        match &self.state {
            State::Lazy(..) => matches!(event, Event::Resume),
            State::Resolving(..) => matches!(
                event,
                Event::Resume | Event::AnswerPending | Event::AnswerFailed
            ),
            State::Connecting(tcp) => match event {
                Event::Resume => !tcp.opening && (tcp.connecting || (!tcp.addrs.is_empty()
                    && tcp.addrs.is_countable())),
                Event::SocketOpened | Event::SocketOpenFailed => tcp.opening,
                Event::SocketFailed => !tcp.opening && tcp.connecting && tcp.addrs.is_countable(),
                Event::SocketPending | Event::SocketConnected => !tcp.opening && tcp.connecting,
                _ => false,
            },
            State::Error(err) => matches!(event, Event::Resume) && err.is_some(),
        }
    }

    /// Decides what is to be done on an event. A host is looked up by `poll_lazy`, and an answer is
    /// taken by `poll_resolving`; after either the work is driven on.
    pub fn poll(&mut self, event: Event, must_bind: bool) -> (action: Action)
        requires
            old(self).expects(event),
        ensures
            old(self).polled(event, must_bind, *final(self), action),
    {
        match self.state {
            State::Lazy(..) => Action::LookUp,
            State::Resolving(..) => match event {
                Event::AnswerPending => Action::NotReady,
                Event::AnswerFailed => Action::FailAnswer,
                _ => Action::PollAnswer,
            },
            State::Connecting(_) => {
                let step = match event {
                    Event::SocketPending => {
                        return Action::NotReady;
                    },
                    Event::SocketConnected => {
                        return Action::Finish(self.socket_options());
                    },
                    Event::SocketOpened => TcpEvent::Opened,
                    Event::SocketOpenFailed => TcpEvent::OpenFailed,
                    Event::SocketFailed => TcpEvent::Failed,
                    _ => TcpEvent::Resume,
                };
                match self.poll_connecting(step, must_bind) {
                    TcpAction::Poll => Action::PollSocket,
                    TcpAction::Open(plan) => Action::Open(plan),
                    TcpAction::FailOpen => Action::FailOpen,
                    TcpAction::GiveUp => Action::GiveUp,
                }
            },
            State::Error(_) => Action::Refuse(self.poll_error()),
        }
    }

    /// The work of connecting to a URL that cannot be connected to.
    pub fn from_invalid_url(err: InvalidUrl, handle: &Option<H>) -> (connecting: HttpConnecting<
        E,
        H,
    >) where H: Clone
        ensures
            connecting.state == State::<E>::Error(Some(err)),
            cloned_handle(*handle, connecting.handle),
            connecting.keep_alive_timeout is None,
            !connecting.nodelay,
    {
        HttpConnecting {
            state: State::Error(Some(err)),
            handle: handle.clone(),
            keep_alive_timeout: None,
            nodelay: false,
        }
    }

    /// Looks up the host at `now`, the time since the cache was created.
    pub fn poll_lazy_at(
        &mut self,
        cache: &ResultCache,
        shifts: &mut RoundRobinMap,
        now: Duration,
    ) -> (lookup: Lookup<E>)
        requires
            old(self).state is Lazy,
        ensures
            old(self).looked_up(cache@, old(shifts)@, now, *final(self), final(shifts)@, lookup),
    {
        let mut state = State::Error(None);
        std::mem::swap(&mut state, &mut self.state);
        if let State::Lazy(executor, host, port, local_addr, map, results) = state {
            if let Some(addrs) = IpAddrs::try_parse(host.as_str(), port) {
                self.state = State::Connecting(
                    ConnectingTcp { addrs, local_addr, opening: false, connecting: false },
                );
                return Lookup::Connect;
            }
            if let Some(ips) = cache.get_at(&host, now) {
                let ips = ips.clone();
                let shift: usize = shifts.get_and_incr(Arc::clone(&host));
                self.state = State::Connecting(
                    ConnectingTcp {
                        addrs: IpAddrs::new(port, ips, shift),
                        local_addr,
                        opening: false,
                        connecting: false,
                    },
                );
                return Lookup::Connect;
            }
            self.state = State::Resolving(host, port, local_addr, map, results);
            return Lookup::Resolve(executor);
        }
        vstd::pervasive::unreached()
    }

    /// Looks up the host.
    pub fn poll_lazy(&mut self, cache: &ResultCache, shifts: &mut RoundRobinMap) -> (lookup: Lookup<
        E,
    >)
        requires
            old(self).state is Lazy,
        ensures
            exists|now: Duration|
                cache.reads(now) && #[trigger] old(self).looked_up(
                    cache@,
                    old(shifts)@,
                    now,
                    *final(self),
                    final(shifts)@,
                    lookup,
                ),
    {
        let now = cache.now();
        self.poll_lazy_at(cache, shifts, now)
    }

    /// Takes the answer to the query for the addresses of the host at `now`, the time since the
    /// cache was created.
    pub fn poll_resolving_at(
        &mut self,
        a_results: Vec<AResult>,
        shifts: &mut RoundRobinMap,
        cache: &mut ResultCache,
        now: Duration,
    )
        requires
            old(self).state is Resolving,
            records::least_ttl(a_results@) matches Some(ttl) ==> ttl >= 0,
        ensures
            old(self).answered(
                a_results@,
                old(cache)@,
                old(shifts)@,
                now,
                *final(self),
                final(cache)@,
                final(shifts)@,
            ),
            final(cache).start() == old(cache).start(),
    {
        let mut state = State::Error(None);
        std::mem::swap(&mut state, &mut self.state);
        if let State::Resolving(host, port, local_addr, _, _) = state {
            let least = min_ttl(&a_results);
            let ips = ips_of(&a_results);
            let shift: usize = shifts.get_and_incr(Arc::clone(&host));
            if let Some(ttl) = least {
                cache.set_at(Arc::clone(&host), ips.clone(), Duration::from_secs(ttl as u64), now);
            }
            self.state = State::Connecting(
                ConnectingTcp {
                    addrs: IpAddrs::new(port, ips, shift),
                    local_addr,
                    opening: false,
                    connecting: false,
                },
            );
        }
    }

    /// Takes the answer to the query for the addresses of the host.
    pub fn poll_resolving(
        &mut self,
        a_results: Vec<AResult>,
        shifts: &mut RoundRobinMap,
        cache: &mut ResultCache,
    )
        requires
            old(self).state is Resolving,
            records::least_ttl(a_results@) matches Some(ttl) ==> ttl >= 0,
        ensures
            exists|now: Duration|
                old(cache).reads(now) && #[trigger] old(self).answered(
                    a_results@,
                    old(cache)@,
                    old(shifts)@,
                    now,
                    *final(self),
                    final(cache)@,
                    final(shifts)@,
                ),
            final(cache).start() == old(cache).start(),
    {
        let now = cache.now();
        self.poll_resolving_at(a_results, shifts, cache, now)
    }

    /// Decides what is to be done about the connection on an event.
    fn poll_connecting(&mut self, event: TcpEvent, must_bind: bool) -> (action: TcpAction)
        requires
            old(self).state.can_drive(event),
        ensures
            final(self).same_settings(*old(self)),
            old(self).state.driven(event, must_bind, final(self).state, action),
    {
        match &mut self.state {
            State::Connecting(tcp) => tcp.poll(event, must_bind),
            _ => vstd::pervasive::unreached(),
        }
    }

    /// What is to be set on the socket that is connected.
    fn socket_options(&self) -> (options: SocketOptions)
        ensures
            options == (SocketOptions {
                keepalive: self.keep_alive_timeout,
                nodelay: self.nodelay,
            }),
    {
        SocketOptions { keepalive: self.keep_alive_timeout, nodelay: self.nodelay }
    }

    /// Hands out the error of a URL that cannot be connected to, which is done once.
    fn poll_error(&mut self) -> (err: InvalidUrl)
        requires
            old(self).state matches State::Error(Some(_)),
        ensures
            old(self).state == State::<E>::Error(Some(err)),
            final(self).state == State::<E>::Error(None),
            final(self).same_settings(*old(self)),
    {
        let mut state = State::Error(None);
        std::mem::swap(&mut state, &mut self.state);
        match state {
            State::Error(Some(err)) => err,
            _ => vstd::pervasive::unreached(),
        }
    }
}

} // verus!
