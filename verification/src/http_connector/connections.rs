//! What holds of a connection, from its URL to its socket.
use crate::dns::{laws, literal, records, rotation};
use crate::dns::literal::parse_literal;
use crate::dns::records::AResult;
use crate::http_connector::{connecting_tcp, connector, http_connecting, round_robin};
use crate::http_connector::connecting_tcp::serves;
use crate::http_connector::connector::{Destination, HttpConnector, PoolSettings};
use crate::http_connector::http_connecting::{
    Action, Event, HttpConnecting, Lookup, ResultCache, State,
};
use crate::http_connector::invalid_url::InvalidUrl;
use crate::http_connector::round_robin::RoundRobinMap;
use crate::net::{IpAddr, Ipv4Addr, SocketAddr, SocketAddrV4};
use crate::time::Duration;
use vstd::prelude::*;

verus! {

/// Whether a text is `http`, in letters of either case.
pub open spec fn is_http_text(text: Seq<char>) -> bool {
    &&& text.len() == 4
    &&& text[0] == 'h' || text[0] == 'H'
    &&& text[1] == 't' || text[1] == 'T'
    &&& text[2] == 't' || text[2] == 'T'
    &&& text[3] == 'p' || text[3] == 'P'
}

/// Whether a text is `https`, in letters of either case.
pub open spec fn is_https_text(text: Seq<char>) -> bool {
    &&& text.len() == 5
    &&& is_http_text(text.take(4))
    &&& text[4] == 's' || text[4] == 'S'
}

/// The two schemes are told by their letters, in either case, and no other text is taken for them.
pub proof fn law_schemes_are_told_by_their_letters(text: Seq<char>)
    ensures
        connector::same_but_case(text, "http"@) <==> is_http_text(text),
        connector::same_but_case(text, "https"@) <==> is_https_text(text),
{
    reveal_strlit("http");
    reveal_strlit("https");
    let http = "http"@;
    let https = "https"@;
    assert(http[0] == 'h' && http[1] == 't' && http[2] == 't' && http[3] == 'p');
    assert(https[0] == 'h' && https[1] == 't' && https[2] == 't' && https[3] == 'p' && https[4]
        == 's');
    if text.len() == 4 {
        if is_http_text(text) {
            assert forall|i: int| 0 <= i < 4 implies connector::lower(#[trigger] text[i])
                == connector::lower(http[i]) by {
                assert(i == 0 || i == 1 || i == 2 || i == 3);
            }
        }
        if connector::same_but_case(text, http) {
            assert(connector::lower(text[0]) == 'h' && connector::lower(text[1]) == 't'
                && connector::lower(text[2]) == 't' && connector::lower(text[3]) == 'p');
        }
    }
    if text.len() == 5 {
        assert(text.take(4)[0] == text[0] && text.take(4)[1] == text[1] && text.take(4)[2]
            == text[2] && text.take(4)[3] == text[3]);
        if is_https_text(text) {
            assert forall|i: int| 0 <= i < 5 implies connector::lower(#[trigger] text[i])
                == connector::lower(https[i]) by {
                assert(i == 0 || i == 1 || i == 2 || i == 3 || i == 4);
            }
        }
        if connector::same_but_case(text, https) {
            assert(connector::lower(text[0]) == 'h' && connector::lower(text[1]) == 't'
                && connector::lower(text[2]) == 't' && connector::lower(text[3]) == 'p'
                && connector::lower(text[4]) == 's');
        }
    }
}

/// The port of a URL: the one that it names, or else that of its scheme.
pub open spec fn port_of(dst: Destination) -> u16 {
    match dst.port {
        Some(port) => port,
        None => if is_https_text(dst.scheme@) {
            443
        } else {
            80
        },
    }
}

/// Whether `after` is a clone of `before`, or neither is there.
pub open spec fn is_clone<T: Clone>(before: Option<T>, after: Option<T>) -> bool {
    &&& before is Some <==> after is Some
    &&& before is Some ==> cloned(before.unwrap(), after.unwrap())
}

/// Connecting to a URL begins with its host and port, with the settings and the tables of the
/// connector. Where `http` is enforced, every other scheme is refused, and a missing one else; a
/// missing host is refused either way.
pub proof fn law_connecting_begins_as_it_is_asked<E: Clone, H: Clone>(
    connector: &HttpConnector<E, H>,
    dst: Destination,
    work: HttpConnecting<E, H>,
)
    requires
        call_ensures(HttpConnector::<E, H>::connect, (connector, dst), work),
    ensures
        is_clone(connector.handle, work.handle),
        if connector.enforce_http && !is_http_text(dst.scheme@) {
            work.state == State::<E>::Error(Some(InvalidUrl::NotHttp))
        } else if !connector.enforce_http && dst.scheme@.len() == 0 {
            work.state == State::<E>::Error(Some(InvalidUrl::MissingScheme))
        } else if dst.host@.len() == 0 {
            work.state == State::<E>::Error(Some(InvalidUrl::MissingAuthority))
        } else {
            &&& work.state matches State::Lazy(executor, host, port, local_addr, map, results)
            &&& cloned(connector.executor, executor)
            &&& host@ == dst.host@
            &&& port == port_of(dst)
            &&& local_addr == connector.local_address
            &&& map == connector.round_robin_map
            &&& results == connector.result_cache
            &&& work.keep_alive_timeout == connector.keep_alive_timeout
            &&& work.nodelay == connector.nodelay
        },
{
    law_schemes_are_told_by_their_letters(dst.scheme@);
}

/// A new connector enforces `http`, and asks nothing else of the sockets.
pub proof fn law_new_connector_asks_nothing_of_sockets<E, H>(
    executor: E,
    handle: Option<H>,
    connector: HttpConnector<E, H>,
)
    requires
        call_ensures(HttpConnector::<E, H>::new_with_executor, (executor, handle), connector),
    ensures
        connector.executor == executor,
        connector.handle == handle,
        connector.enforce_http,
        connector.keep_alive_timeout is None,
        !connector.nodelay,
        connector.local_address is None,
{
}

/// A new connector that resolves hosts on threads has as many as it was asked for, and is else as
/// every new connector.
pub proof fn law_new_connector_has_its_threads<H>(
    threads: usize,
    handle: H,
    connector: HttpConnector<PoolSettings, H>,
    with_handle: HttpConnector<PoolSettings, H>,
)
    requires
        call_ensures(HttpConnector::<PoolSettings, H>::new, (threads,), connector),
        call_ensures(
            HttpConnector::<PoolSettings, H>::new_with_handle,
            (threads, handle),
            with_handle,
        ),
    ensures
        connector.handle is None,
        with_handle.handle == Some(handle),
        connector.executor.pool_size == threads,
        with_handle.executor.pool_size == threads,
        connector.executor.name_prefix@ == "hyper-dns"@,
        with_handle.executor.name_prefix@ == "hyper-dns"@,
        connector.enforce_http && with_handle.enforce_http,
        connector.keep_alive_timeout is None && with_handle.keep_alive_timeout is None,
        !connector.nodelay && !with_handle.nodelay,
        connector.local_address is None && with_handle.local_address is None,
{
}

/// Whether only the four settings may differ.
pub open spec fn same_but_settings<E, H>(
    connector: HttpConnector<E, H>,
    other: HttpConnector<E, H>,
) -> bool {
    &&& connector.executor == other.executor
    &&& connector.handle == other.handle
    &&& connector.round_robin_map == other.round_robin_map
    &&& connector.result_cache == other.result_cache
}

/// Each setting is set to what it is asked to be, and nothing else is.
pub proof fn law_settings_are_set<E, H>(
    enforcing: &mut HttpConnector<E, H>,
    is_enforced: bool,
    living: &mut HttpConnector<E, H>,
    dur: Option<Duration>,
    hurrying: &mut HttpConnector<E, H>,
    nodelay: bool,
    bound: &mut HttpConnector<E, H>,
    addr: Option<IpAddr>,
)
    requires
        call_ensures(HttpConnector::<E, H>::enforce_http, (enforcing, is_enforced), ()),
        call_ensures(HttpConnector::<E, H>::set_keepalive, (living, dur), ()),
        call_ensures(HttpConnector::<E, H>::set_nodelay, (hurrying, nodelay), ()),
        call_ensures(HttpConnector::<E, H>::set_local_address, (bound, addr), ()),
    ensures
        same_but_settings(*final(enforcing), *old(enforcing)),
        final(enforcing).enforce_http == is_enforced,
        final(enforcing).keep_alive_timeout == old(enforcing).keep_alive_timeout,
        final(enforcing).nodelay == old(enforcing).nodelay,
        final(enforcing).local_address == old(enforcing).local_address,
        same_but_settings(*final(living), *old(living)),
        final(living).enforce_http == old(living).enforce_http,
        final(living).keep_alive_timeout == dur,
        final(living).nodelay == old(living).nodelay,
        final(living).local_address == old(living).local_address,
        same_but_settings(*final(hurrying), *old(hurrying)),
        final(hurrying).enforce_http == old(hurrying).enforce_http,
        final(hurrying).keep_alive_timeout == old(hurrying).keep_alive_timeout,
        final(hurrying).nodelay == nodelay,
        final(hurrying).local_address == old(hurrying).local_address,
        same_but_settings(*final(bound), *old(bound)),
        final(bound).enforce_http == old(bound).enforce_http,
        final(bound).keep_alive_timeout == old(bound).keep_alive_timeout,
        final(bound).nodelay == old(bound).nodelay,
        final(bound).local_address == addr,
{
}

/// A clone of a connector has its settings and shares its tables.
pub proof fn law_clones_share_the_tables<E: Clone, H: Clone>(
    connector: &HttpConnector<E, H>,
    clone: HttpConnector<E, H>,
)
    requires
        call_ensures(<HttpConnector<E, H> as Clone>::clone, (connector,), clone),
    ensures
        cloned(connector.executor, clone.executor),
        is_clone(connector.handle, clone.handle),
        clone.enforce_http == connector.enforce_http,
        clone.keep_alive_timeout == connector.keep_alive_timeout,
        clone.nodelay == connector.nodelay,
        clone.local_address == connector.local_address,
        clone.round_robin_map == connector.round_robin_map,
        clone.result_cache == connector.result_cache,
{
}

/// Whether the handle and what is to be set on the socket are the same.
pub open spec fn sets_the_same<E, H>(
    work: HttpConnecting<E, H>,
    other: HttpConnecting<E, H>,
) -> bool {
    &&& work.handle == other.handle
    &&& work.keep_alive_timeout == other.keep_alive_timeout
    &&& work.nodelay == other.nodelay
}

/// Each event has its action. A socket that has connected is handed out with its settings, whatever
/// they are, and only what is still pending is waited for.
pub proof fn law_every_event_has_its_action<E, H>(
    work: &mut HttpConnecting<E, H>,
    event: Event,
    must_bind: bool,
    action: Action,
)
    requires
        old(work).expects(event),
        call_ensures(HttpConnecting::<E, H>::poll, (work, event, must_bind), action),
    ensures
        action is NotReady <==> event is AnswerPending || event is SocketPending,
        action is Finish <==> event is SocketConnected,
        action is FailAnswer <==> event is AnswerFailed,
        action is FailOpen <==> event is SocketOpenFailed,
        action is LookUp <==> old(work).state is Lazy,
        action is PollAnswer <==> old(work).state is Resolving && event is Resume,
        action is Refuse <==> old(work).state is Error,
        action is PollSocket <==> (old(work).state matches State::Connecting(tcp) && (
        event is SocketOpened || (event is Resume && tcp.connecting))),
        action is Open <==> (old(work).state matches State::Connecting(tcp) && tcp.addrs@.len() > 0
            && (event is SocketFailed || (event is Resume && !tcp.connecting))),
        action is GiveUp <==> (old(work).state matches State::Connecting(tcp) && tcp.addrs@.len()
            == 0 && event is SocketFailed),
        action matches Action::Finish(options) ==> {
            &&& options.keepalive == old(work).keep_alive_timeout
            &&& options.nodelay == old(work).nodelay
        },
        action matches Action::Refuse(err) ==> old(work).state == State::<E>::Error(Some(err)),
{
}

/// A poll keeps what it does not use up: the handle and the settings always; while a host is looked
/// up or asked for, and while a socket is pending or finished, everything; and of the attempts all but
/// the address that a socket is opened to, which serves that address.
pub proof fn law_polling_uses_up_one_address_at_most<E, H>(
    work: &mut HttpConnecting<E, H>,
    event: Event,
    must_bind: bool,
    action: Action,
)
    requires
        old(work).expects(event),
        call_ensures(HttpConnecting::<E, H>::poll, (work, event, must_bind), action),
    ensures
        sets_the_same(*final(work), *old(work)),
        match old(work).state {
            State::Lazy(..) | State::Resolving(..) => *final(work) == *old(work),
            State::Error(_) => final(work).state == State::<E>::Error(None),
            State::Connecting(was) => {
                &&& final(work).state matches State::Connecting(tcp)
                &&& tcp.local_addr == was.local_addr
                &&& tcp.connecting <==> was.connecting || event is SocketOpened
                &&& tcp.opening <==> action is Open
                &&& match action {
                    Action::Open(plan) => {
                        &&& was.addrs@ == seq![plan.addr] + tcp.addrs@
                        &&& serves(plan, was.addrs@[0], was.local_addr, must_bind)
                        &&& tcp.addrs.position() == was.addrs.position() + 1
                    },
                    _ => {
                        &&& tcp.addrs@ == was.addrs@
                        &&& tcp.addrs.position() == was.addrs.position()
                    },
                }
            },
        },
{
    if let State::Connecting(was) = old(work).state {
        if was.addrs@.len() > 0 {
            connecting_tcp::lemma_plan_serves(was.addrs@[0], was.local_addr, must_bind);
            assert(was.addrs@ =~= seq![was.addrs@[0]] + was.addrs@.drop_first());
        }
    }
}

/// An event can happen exactly where it was called for: a look-up once, an answer while it is asked
/// for, the opening of a socket while it is being opened, and what becomes of a socket while it is
/// connecting. The work can be driven on unless its error was handed out, or there is neither a socket
/// nor an address whose place can be counted.
pub proof fn law_what_is_called_for_is_expected<E, H>(
    work: &HttpConnecting<E, H>,
    event: Event,
    expected: bool,
)
    requires
        call_ensures(HttpConnecting::<E, H>::is_expected, (work, event), expected),
    ensures
        expected == work.expects(event),
        expected <==> match work.state {
            State::Lazy(..) => event is Resume,
            State::Resolving(..) => event is Resume || event is AnswerPending
                || event is AnswerFailed,
            State::Error(err) => event is Resume && err is Some,
            State::Connecting(tcp) => {
                let countable = tcp.addrs@.len() == 0 || tcp.addrs.position() <= usize::MAX;
                match event {
                    Event::SocketOpened | Event::SocketOpenFailed => tcp.opening,
                    Event::SocketPending | Event::SocketConnected => tcp.connecting && !tcp.opening,
                    Event::SocketFailed => tcp.connecting && !tcp.opening && countable,
                    Event::Resume => !tcp.opening && (tcp.connecting || (tcp.addrs@.len() > 0
                        && countable)),
                    _ => false,
                }
            },
        },
{
}

/// Whatever an action asks for can be answered.
pub proof fn law_what_is_asked_for_can_be_answered<E, H>(
    work: &mut HttpConnecting<E, H>,
    event: Event,
    must_bind: bool,
    action: Action,
)
    requires
        old(work).expects(event),
        call_ensures(HttpConnecting::<E, H>::poll, (work, event, must_bind), action),
    ensures
        match action {
            Action::PollAnswer => final(work).expects(Event::AnswerPending) && final(work).expects(
                Event::AnswerFailed,
            ),
            Action::PollSocket => final(work).expects(Event::SocketPending) && final(work).expects(
                Event::SocketConnected,
            ),
            Action::Open(_) => final(work).expects(Event::SocketOpened) && final(work).expects(
                Event::SocketOpenFailed,
            ),
            Action::NotReady => final(work).expects(Event::Resume),
            _ => true,
        },
{
}

/// The work on a URL that cannot be connected to holds its error, and sets nothing.
pub proof fn law_refused_work_holds_its_error<E, H: Clone>(
    err: InvalidUrl,
    handle: &Option<H>,
    work: HttpConnecting<E, H>,
)
    requires
        call_ensures(HttpConnecting::<E, H>::from_invalid_url, (err, handle), work),
    ensures
        work.state == State::<E>::Error(Some(err)),
        is_clone(*handle, work.handle),
        work.keep_alive_timeout is None,
        !work.nodelay,
{
}

/// Whether `after` are the counters `before`, with that of `host` turned by one: it is 0 for a new
/// host, and begins anew after the greatest number.
pub open spec fn turned(
    before: Map<Seq<char>, usize>,
    host: Seq<char>,
    after: Map<Seq<char>, usize>,
) -> bool {
    &&& after.contains_key(host)
    &&& after[host] == (if before.contains_key(host) && before[host] < usize::MAX {
        before[host] + 1
    } else {
        0
    })
    &&& forall|other: Seq<char>|
        other != host ==> {
            &&& #[trigger] after.contains_key(other) <==> before.contains_key(other)
            &&& after[other] == before[other]
        }
}

/// Whether the addresses are `ips` at `port` in ascending order, from the place `shift` around.
pub open spec fn walks(
    addrs: Seq<SocketAddr>,
    ips: Seq<Ipv4Addr>,
    port: u16,
    shift: usize,
) -> bool {
    exists|sorted: Seq<Ipv4Addr>|
        {
            &&& #[trigger] laws::ascend(sorted)
            &&& sorted.to_multiset() == ips.to_multiset()
            &&& sorted.len() == ips.len()
            &&& addrs.len() == ips.len()
            &&& forall|i: int|
                0 <= i < addrs.len() ==> #[trigger] addrs[i] == SocketAddr::V4(
                    SocketAddrV4 { ip: sorted[(i + shift) % sorted.len() as int], port },
                )
        }
}

/// Whether `state` is about to try `addrs`, by sockets that are bound to `local_addr`, the first of
/// which has the place `position`.
pub open spec fn about_to_try<E>(
    state: State<E>,
    addrs: Seq<SocketAddr>,
    position: nat,
    local_addr: Option<IpAddr>,
) -> bool {
    &&& state matches State::Connecting(tcp)
    &&& tcp.addrs@ == addrs
    &&& tcp.addrs.position() == position
    &&& tcp.local_addr == local_addr
    &&& !tcp.opening
    &&& !tcp.connecting
}

/// The addresses that the state is trying.
pub open spec fn addrs_of<E>(state: State<E>) -> Seq<SocketAddr> {
    state->Connecting_0.addrs@
}

/// What looking up a host is for. A host that is written as `literal` is connected to as it is, and
/// takes no turn. A host whose addresses are kept at `now` is connected to at its port, and takes one
/// turn. Every other host is asked for, takes no turn, and keeps what it was asked with. No other host
/// takes a turn, and nothing is changed of what is set on the socket.
pub open spec fn finds<E, H>(
    work: HttpConnecting<E, H>,
    literal: Option<SocketAddr>,
    entries: Map<Seq<char>, (Vec<Ipv4Addr>, u128)>,
    shifts: Map<Seq<char>, usize>,
    now: Duration,
    after: HttpConnecting<E, H>,
    shifts_after: Map<Seq<char>, usize>,
    lookup: Lookup<E>,
) -> bool {
    &&& sets_the_same(after, work)
    &&& work.state matches State::Lazy(executor, host, port, local_addr, map, results)
    &&& if literal is Some {
        &&& lookup is Connect
        &&& about_to_try(after.state, seq![literal.unwrap()], 0, local_addr)
        &&& shifts_after == shifts
    } else if entries.contains_key(host@) && entries[host@].1 > now.secs * 1_000_000_000
        + now.nanos {
        &&& lookup is Connect
        &&& turned(shifts, host@, shifts_after)
        &&& about_to_try(
            after.state,
            addrs_of(after.state),
            shifts_after[host@] as nat,
            local_addr,
        )
        &&& walks(addrs_of(after.state), entries[host@].0@, port, shifts_after[host@])
    } else {
        &&& lookup == Lookup::Resolve(executor)
        &&& after.state == State::<E>::Resolving(host, port, local_addr, map, results)
        &&& shifts_after == shifts
    }
}

/// What a walk is.
proof fn lemma_walks(ips: Seq<Ipv4Addr>, port: u16, shift: usize)
    ensures
        walks(http_connecting::walk(ips, port, shift), ips, port, shift),
        laws::all_at_port(http_connecting::walk(ips, port, shift), port),
{
    let sorted = rotation::sorted_ips(ips);
    laws::lemma_sorted_ascends(ips);
    rotation::law_sorting_keeps_addresses(ips);
    assert(laws::ascend(sorted));
}

/// What a look-up comes to.
proof fn lemma_finds<E, H>(
    work: HttpConnecting<E, H>,
    entries: Map<Seq<char>, (Vec<Ipv4Addr>, u128)>,
    shifts: Map<Seq<char>, usize>,
    now: Duration,
    after: HttpConnecting<E, H>,
    shifts_after: Map<Seq<char>, usize>,
    lookup: Lookup<E>,
)
    requires
        work.looked_up(entries, shifts, now, after, shifts_after, lookup),
    ensures
        work.state matches State::Lazy(_, host, port, _, _, _) && finds(
            work,
            literal::literal_addr(host@, port),
            entries,
            shifts,
            now,
            after,
            shifts_after,
            lookup,
        ),
{
    if let State::Lazy(_, host, port, _, _, _) = work.state {
        let shift = round_robin::next_shift(shifts, host@);
        lemma_walks(entries[host@].0@, port, shift);
    }
}

/// Looking up a host finds what it is for.
pub proof fn law_look_up_finds<E, H>(
    work: &mut HttpConnecting<E, H>,
    cache: &ResultCache,
    shifts: &mut RoundRobinMap,
    now: Duration,
    lookup: Lookup<E>,
    text: &str,
    literal: Option<SocketAddr>,
)
    requires
        old(work).state matches State::Lazy(_, host, port, _, _, _) && text@ == host@
            && call_ensures(parse_literal, (text, port), literal),
        call_ensures(
            HttpConnecting::<E, H>::poll_lazy_at,
            (work, cache, shifts, now),
            lookup,
        ),
    ensures
        finds(
            *old(work),
            literal,
            cache@,
            old(shifts)@,
            now,
            *final(work),
            final(shifts)@,
            lookup,
        ),
        lookup is Connect ==> (final(work).expects(Event::Resume) <==> addrs_of(
            final(work).state,
        ).len() > 0),
{
    lemma_finds(
        *old(work),
        cache@,
        old(shifts)@,
        now,
        *final(work),
        final(shifts)@,
        lookup,
    );
}

/// Looking up a host at present finds what it is for, at a reading of the clock.
pub proof fn law_look_up_finds_at_present<E, H>(
    work: &mut HttpConnecting<E, H>,
    cache: &ResultCache,
    shifts: &mut RoundRobinMap,
    lookup: Lookup<E>,
    text: &str,
    literal: Option<SocketAddr>,
)
    requires
        old(work).state matches State::Lazy(_, host, port, _, _, _) && text@ == host@
            && call_ensures(parse_literal, (text, port), literal),
        call_ensures(HttpConnecting::<E, H>::poll_lazy, (work, cache, shifts), lookup),
    ensures
        exists|now: Duration| #[trigger]
            cache.reads(now) && finds(
                *old(work),
                literal,
                cache@,
                old(shifts)@,
                now,
                *final(work),
                final(shifts)@,
                lookup,
            ),
{
    let now = choose|now: Duration|
        cache.reads(now) && #[trigger] old(work).looked_up(
            cache@,
            old(shifts)@,
            now,
            *final(work),
            final(shifts)@,
            lookup,
        );
    assert(cache.reads(now));
    lemma_finds(
        *old(work),
        cache@,
        old(shifts)@,
        now,
        *final(work),
        final(shifts)@,
        lookup,
    );
}

/// The addresses of the records, in the order of the answer.
pub open spec fn answered_ips(results: Seq<AResult>) -> Seq<Ipv4Addr> {
    Seq::new(results.len(), |i: int| results[i].ipv4)
}

/// What an answer is for. Its addresses are connected to, at the port and by the local address that
/// were asked for, and the host takes one turn. They are kept until the first of the records may no
/// longer be; an answer without records is not kept. Nothing else that is kept is touched, no other
/// host takes a turn, and nothing is changed of what is set on the socket.
pub open spec fn takes<E, H>(
    work: HttpConnecting<E, H>,
    results: Seq<AResult>,
    entries: Map<Seq<char>, (Vec<Ipv4Addr>, u128)>,
    shifts: Map<Seq<char>, usize>,
    now: Duration,
    after: HttpConnecting<E, H>,
    entries_after: Map<Seq<char>, (Vec<Ipv4Addr>, u128)>,
    shifts_after: Map<Seq<char>, usize>,
) -> bool {
    &&& sets_the_same(after, work)
    &&& work.state matches State::Resolving(host, port, local_addr, _, _)
    &&& turned(shifts, host@, shifts_after)
    &&& about_to_try(
        after.state,
        addrs_of(after.state),
        shifts_after[host@] as nat,
        local_addr,
    )
    &&& walks(addrs_of(after.state), answered_ips(results), port, shifts_after[host@])
    &&& results.len() == 0 ==> entries_after == entries
    &&& results.len() > 0 ==> {
        &&& entries_after.contains_key(host@)
        &&& entries_after[host@].0@ == answered_ips(results)
        &&& exists|i: int|
            {
                &&& 0 <= i < results.len()
                &&& entries_after[host@].1 == (now.secs + (#[trigger] results[i]).ttl)
                    * 1_000_000_000 + now.nanos
                &&& forall|j: int|
                    0 <= j < results.len() ==> results[i].ttl <= (#[trigger] results[j]).ttl
            }
    }
    &&& forall|other: Seq<char>|
        other != host@ ==> {
            &&& #[trigger] entries_after.contains_key(other) <==> entries.contains_key(other)
            &&& entries_after[other] == entries[other]
        }
}

/// What an answer comes to.
proof fn lemma_takes<E, H>(
    work: HttpConnecting<E, H>,
    results: Seq<AResult>,
    entries: Map<Seq<char>, (Vec<Ipv4Addr>, u128)>,
    shifts: Map<Seq<char>, usize>,
    now: Duration,
    after: HttpConnecting<E, H>,
    entries_after: Map<Seq<char>, (Vec<Ipv4Addr>, u128)>,
    shifts_after: Map<Seq<char>, usize>,
)
    requires
        work.answered(results, entries, shifts, now, after, entries_after, shifts_after),
        records::least_ttl(results) matches Some(ttl) ==> ttl >= 0,
    ensures
        takes(work, results, entries, shifts, now, after, entries_after, shifts_after),
{
    assert(records::record_ips(results) =~= answered_ips(results));
    records::law_least_ttl(results);
    if let State::Resolving(host, port, _, _, _) = work.state {
        lemma_walks(answered_ips(results), port, round_robin::next_shift(shifts, host@));
        if results.len() > 0 {
            let ttl = records::least_ttl(results).unwrap();
            let i = choose|i: int| 0 <= i < results.len() && (#[trigger] results[i]).ttl == ttl;
            assert(entries_after[host@].1 == (now.secs + results[i].ttl) * 1_000_000_000
                + now.nanos);
        }
    }
}

/// Taking an answer does what it is for.
pub proof fn law_answer_is_taken<E, H>(
    work: &mut HttpConnecting<E, H>,
    a_results: Vec<AResult>,
    shifts: &mut RoundRobinMap,
    cache: &mut ResultCache,
    now: Duration,
)
    requires
        old(work).state is Resolving,
        forall|i: int| 0 <= i < a_results@.len() ==> (#[trigger] a_results@[i]).ttl >= 0,
        call_ensures(
            HttpConnecting::<E, H>::poll_resolving_at,
            (work, a_results, shifts, cache, now),
            (),
        ),
    ensures
        takes(
            *old(work),
            a_results@,
            old(cache)@,
            old(shifts)@,
            now,
            *final(work),
            final(cache)@,
            final(shifts)@,
        ),
        final(cache).start() == old(cache).start(),
        final(work).expects(Event::Resume) <==> a_results@.len() > 0,
{
    records::law_least_ttl(a_results@);
    lemma_takes(
        *old(work),
        a_results@,
        old(cache)@,
        old(shifts)@,
        now,
        *final(work),
        final(cache)@,
        final(shifts)@,
    );
}

/// Taking an answer at present does what it is for, at a reading of the clock.
pub proof fn law_answer_is_taken_at_present<E, H>(
    work: &mut HttpConnecting<E, H>,
    a_results: Vec<AResult>,
    shifts: &mut RoundRobinMap,
    cache: &mut ResultCache,
)
    requires
        old(work).state is Resolving,
        forall|i: int| 0 <= i < a_results@.len() ==> (#[trigger] a_results@[i]).ttl >= 0,
        call_ensures(
            HttpConnecting::<E, H>::poll_resolving,
            (work, a_results, shifts, cache),
            (),
        ),
    ensures
        exists|now: Duration| #[trigger]
            old(cache).reads(now) && takes(
                *old(work),
                a_results@,
                old(cache)@,
                old(shifts)@,
                now,
                *final(work),
                final(cache)@,
                final(shifts)@,
            ),
        final(cache).start() == old(cache).start(),
{
    let now = choose|now: Duration|
        old(cache).reads(now) && #[trigger] old(work).answered(
            a_results@,
            old(cache)@,
            old(shifts)@,
            now,
            *final(work),
            final(cache)@,
            final(shifts)@,
        );
    assert(old(cache).reads(now));
    records::law_least_ttl(a_results@);
    lemma_takes(
        *old(work),
        a_results@,
        old(cache)@,
        old(shifts)@,
        now,
        *final(work),
        final(cache)@,
        final(shifts)@,
    );
}

/// A look-up that is followed by the answer to its query is one turn of the host, and of no other; it
/// keeps the port, the local address and what is set on the socket.
pub proof fn law_a_resolved_connection_takes_one_turn<E, H>(
    work: &mut HttpConnecting<E, H>,
    cache: &ResultCache,
    shifts: &mut RoundRobinMap,
    now: Duration,
    lookup: Lookup<E>,
    waiting: &mut HttpConnecting<E, H>,
    a_results: Vec<AResult>,
    shifts_then: &mut RoundRobinMap,
    cache_then: &mut ResultCache,
    later: Duration,
)
    requires
        old(work).state is Lazy,
        call_ensures(
            HttpConnecting::<E, H>::poll_lazy_at,
            (work, cache, shifts, now),
            lookup,
        ),
        lookup is Resolve,
        forall|i: int| 0 <= i < a_results@.len() ==> (#[trigger] a_results@[i]).ttl >= 0,
        call_ensures(
            HttpConnecting::<E, H>::poll_resolving_at,
            (waiting, a_results, shifts_then, cache_then, later),
            (),
        ),
    ensures
        *old(waiting) == *final(work) && old(shifts_then)@ == final(shifts)@ ==> {
            &&& old(work).state matches State::Lazy(_, host, port, local_addr, _, _)
            &&& turned(old(shifts)@, host@, final(shifts_then)@)
            &&& sets_the_same(*final(waiting), *old(work))
            &&& about_to_try(
                final(waiting).state,
                addrs_of(final(waiting).state),
                final(shifts_then)@[host@] as nat,
                local_addr,
            )
            &&& walks(
                addrs_of(final(waiting).state),
                answered_ips(a_results@),
                port,
                final(shifts_then)@[host@],
            )
        },
{
    if *old(waiting) == *final(work) && old(shifts_then)@ == final(shifts)@ {
        lemma_finds(
            *old(work),
            cache@,
            old(shifts)@,
            now,
            *final(work),
            final(shifts)@,
            lookup,
        );
        records::law_least_ttl(a_results@);
        lemma_takes(
            *old(waiting),
            a_results@,
            old(cache_then)@,
            old(shifts_then)@,
            later,
            *final(waiting),
            final(cache_then)@,
            final(shifts_then)@,
        );
    }
}

/// Whether `work` came to `after` without a query.
pub open spec fn found_at_once<E, H>(
    work: HttpConnecting<E, H>,
    entries: Map<Seq<char>, (Vec<Ipv4Addr>, u128)>,
    shifts: Map<Seq<char>, usize>,
    now: Duration,
    after: HttpConnecting<E, H>,
    shifts_after: Map<Seq<char>, usize>,
) -> bool {
    work.looked_up(entries, shifts, now, after, shifts_after, Lookup::Connect)
}

/// Whether `work` came to `after` by a query, which was answered by `results`.
pub open spec fn found_by_query<E, H>(
    work: HttpConnecting<E, H>,
    entries: Map<Seq<char>, (Vec<Ipv4Addr>, u128)>,
    shifts: Map<Seq<char>, usize>,
    now: Duration,
    waiting: HttpConnecting<E, H>,
    shifts_then: Map<Seq<char>, usize>,
    executor: E,
    results: Seq<AResult>,
    entries_then: Map<Seq<char>, (Vec<Ipv4Addr>, u128)>,
    later: Duration,
    after: HttpConnecting<E, H>,
    entries_after: Map<Seq<char>, (Vec<Ipv4Addr>, u128)>,
    shifts_after: Map<Seq<char>, usize>,
) -> bool {
    &&& work.looked_up(entries, shifts, now, waiting, shifts_then, Lookup::Resolve(executor))
    &&& waiting.answered(
        results,
        entries_then,
        shifts_then,
        later,
        after,
        entries_after,
        shifts_after,
    )
}

/// Whether `work` came to `after`, by the addresses `ips` of its host in whatever order: they were
/// kept, or they were answered.
pub open spec fn connects<E, H>(
    work: HttpConnecting<E, H>,
    ips: Seq<Ipv4Addr>,
    shifts: Map<Seq<char>, usize>,
    after: HttpConnecting<E, H>,
    shifts_after: Map<Seq<char>, usize>,
) -> bool {
    ||| exists|entries: Map<Seq<char>, (Vec<Ipv4Addr>, u128)>, now: Duration| #[trigger]
        found_at_once(work, entries, shifts, now, after, shifts_after) && (
        work.state matches State::Lazy(_, host, _, _, _, _) && entries[host@].0@.to_multiset()
            == ips.to_multiset())
    ||| exists|
        entries: Map<Seq<char>, (Vec<Ipv4Addr>, u128)>,
        now: Duration,
        waiting: HttpConnecting<E, H>,
        shifts_then: Map<Seq<char>, usize>,
        executor: E,
        results: Seq<AResult>,
        entries_then: Map<Seq<char>, (Vec<Ipv4Addr>, u128)>,
        later: Duration,
        entries_after: Map<Seq<char>, (Vec<Ipv4Addr>, u128)>,
    | #[trigger]
        found_by_query(
            work,
            entries,
            shifts,
            now,
            waiting,
            shifts_then,
            executor,
            results,
            entries_then,
            later,
            after,
            entries_after,
            shifts_after,
        ) && answered_ips(results).to_multiset() == ips.to_multiset()
}

/// Whether `work` is to connect to `port` of `host`, which is a name.
pub open spec fn goes_to<E, H>(work: HttpConnecting<E, H>, host: Seq<char>, port: u16) -> bool {
    &&& work.state matches State::Lazy(_, h, p, _, _, _)
    &&& h@ == host
    &&& p == port
    &&& literal::literal_addr(host, port) is None
}

/// One connection to a name.
proof fn lemma_connects<E, H>(
    work: HttpConnecting<E, H>,
    host: Seq<char>,
    port: u16,
    ips: Seq<Ipv4Addr>,
    shifts: Map<Seq<char>, usize>,
    after: HttpConnecting<E, H>,
    shifts_after: Map<Seq<char>, usize>,
)
    requires
        goes_to(work, host, port),
        connects(work, ips, shifts, after, shifts_after),
    ensures
        turned(shifts, host, shifts_after),
        after.state is Connecting,
        addrs_of(after.state) == http_connecting::walk(ips, port, shifts_after[host]),
{
    let shift = round_robin::next_shift(shifts, host);
    if exists|entries: Map<Seq<char>, (Vec<Ipv4Addr>, u128)>, now: Duration| #[trigger]
        found_at_once(work, entries, shifts, now, after, shifts_after) && (
        work.state matches State::Lazy(_, h, _, _, _, _) && entries[h@].0@.to_multiset()
            == ips.to_multiset()) {
        let (entries, now) = choose|
            entries: Map<Seq<char>, (Vec<Ipv4Addr>, u128)>,
            now: Duration,
        | #[trigger]
            found_at_once(work, entries, shifts, now, after, shifts_after) && (
            work.state matches State::Lazy(_, h, _, _, _, _) && entries[h@].0@.to_multiset()
                == ips.to_multiset());
        rotation::law_order_of_answer_is_irrelevant(
            entries[host].0@,
            ips,
            port,
            shift as nat,
        );
    } else {
        let (
            entries,
            now,
            waiting,
            shifts_then,
            executor,
            results,
            entries_then,
            later,
            entries_after,
        ) = choose|
            entries: Map<Seq<char>, (Vec<Ipv4Addr>, u128)>,
            now: Duration,
            waiting: HttpConnecting<E, H>,
            shifts_then: Map<Seq<char>, usize>,
            executor: E,
            results: Seq<AResult>,
            entries_then: Map<Seq<char>, (Vec<Ipv4Addr>, u128)>,
            later: Duration,
            entries_after: Map<Seq<char>, (Vec<Ipv4Addr>, u128)>,
        | #[trigger]
            found_by_query(
                work,
                entries,
                shifts,
                now,
                waiting,
                shifts_then,
                executor,
                results,
                entries_then,
                later,
                after,
                entries_after,
                shifts_after,
            ) && answered_ips(results).to_multiset() == ips.to_multiset();
        assert(records::record_ips(results) =~= answered_ips(results));
        rotation::law_order_of_answer_is_irrelevant(
            answered_ips(results),
            ips,
            port,
            shift as nat,
        );
    }
}

/// The connection after another to the same addresses of a host, whether they were kept or answered,
/// tries them from one further on: what the other one tried first, it tries last. Connections to
/// other hosts between the two do not matter. The counter must not begin anew between them.
pub proof fn law_each_connection_begins_one_further<E, H>(
    host: Seq<char>,
    port: u16,
    ips: Seq<Ipv4Addr>,
    first: HttpConnecting<E, H>,
    first_shifts: Map<Seq<char>, usize>,
    first_after: HttpConnecting<E, H>,
    first_shifts_after: Map<Seq<char>, usize>,
    second: HttpConnecting<E, H>,
    second_shifts: Map<Seq<char>, usize>,
    second_after: HttpConnecting<E, H>,
    second_shifts_after: Map<Seq<char>, usize>,
)
    requires
        ips.len() > 0,
        goes_to(first, host, port),
        goes_to(second, host, port),
        connects(first, ips, first_shifts, first_after, first_shifts_after),
        connects(second, ips, second_shifts, second_after, second_shifts_after),
        second_shifts.contains_key(host),
        second_shifts[host] == first_shifts_after[host],
        second_shifts[host] < usize::MAX,
    ensures
        addrs_of(first_after.state).len() == ips.len(),
        addrs_of(second_after.state) == addrs_of(first_after.state).drop_first().push(
            addrs_of(first_after.state)[0],
        ),
{
    lemma_connects(first, host, port, ips, first_shifts, first_after, first_shifts_after);
    lemma_connects(second, host, port, ips, second_shifts, second_after, second_shifts_after);
    let sorted = rotation::sorted_ips(ips);
    rotation::law_sorting_keeps_addresses(ips);
    rotation::law_next_walk_begins_one_further(
        rotation::socket_addrs(sorted, port),
        first_shifts_after[host] as nat,
    );
}

/// The first connection to a host begins with its least address, whether that was kept or answered.
pub proof fn law_first_connection_begins_with_the_least<E, H>(
    host: Seq<char>,
    port: u16,
    ips: Seq<Ipv4Addr>,
    work: HttpConnecting<E, H>,
    shifts: Map<Seq<char>, usize>,
    after: HttpConnecting<E, H>,
    shifts_after: Map<Seq<char>, usize>,
)
    requires
        goes_to(work, host, port),
        connects(work, ips, shifts, after, shifts_after),
        !shifts.contains_key(host),
    ensures
        laws::all_at_port(addrs_of(after.state), port),
        laws::ascend(laws::without_ports(addrs_of(after.state))),
        laws::without_ports(addrs_of(after.state)).to_multiset() == ips.to_multiset(),
{
    lemma_connects(work, host, port, ips, shifts, after, shifts_after);
    laws::lemma_walk(ips, port, 0);
}

/// The counters of the connections of a row.
proof fn lemma_row<E, H>(
    host: Seq<char>,
    port: u16,
    ips: Seq<Ipv4Addr>,
    works: Seq<HttpConnecting<E, H>>,
    shifts: Seq<Map<Seq<char>, usize>>,
    afters: Seq<HttpConnecting<E, H>>,
    shifts_after: Seq<Map<Seq<char>, usize>>,
    count: int,
)
    requires
        0 <= count < works.len(),
        is_row(host, port, ips, works, shifts, afters, shifts_after),
        shifts[0].contains_key(host) ==> shifts[0][host] + works.len() <= usize::MAX,
        works.len() <= usize::MAX,
    ensures
        shifts_after[count][host] == shifts_after[0][host] + count,
        shifts_after[count][host] + (works.len() - 1 - count) <= usize::MAX,
        addrs_of(afters[count].state) == http_connecting::walk(
            ips,
            port,
            shifts_after[count][host],
        ),
    decreases count,
{
    let work = works[count];
    lemma_connects(
        work,
        host,
        port,
        ips,
        shifts[count],
        afters[count],
        shifts_after[count],
    );
    if count > 0 {
        lemma_row(host, port, ips, works, shifts, afters, shifts_after, count - 1);
        let before = shifts_after[count - 1];
        assert(shifts[count - 1 + 1][host] == before[host]);
    }
}

/// Whether the connections are made to `host` one after another, each by the addresses `ips`. Between
/// them, others may be made to other hosts.
pub open spec fn is_row<E, H>(
    host: Seq<char>,
    port: u16,
    ips: Seq<Ipv4Addr>,
    works: Seq<HttpConnecting<E, H>>,
    shifts: Seq<Map<Seq<char>, usize>>,
    afters: Seq<HttpConnecting<E, H>>,
    shifts_after: Seq<Map<Seq<char>, usize>>,
) -> bool {
    &&& works.len() == shifts.len() == afters.len() == shifts_after.len()
    &&& forall|i: int|
        0 <= i < works.len() ==> goes_to(#[trigger] works[i], host, port) && connects(
            works[i],
            ips,
            shifts[i],
            afters[i],
            shifts_after[i],
        )
    &&& forall|i: int|
        0 <= i < works.len() - 1 ==> (#[trigger] shifts_after[i])[host] == shifts[i + 1][host]
            && shifts[i + 1].contains_key(host)
}

/// Round robin: of as many connections to a host as it has addresses, one after another, whether the
/// addresses were kept or answered, each address is tried first exactly as often as the host has it,
/// unless the counter begins anew among them.
pub proof fn law_addresses_come_first_in_turn<E, H>(
    host: Seq<char>,
    port: u16,
    ips: Seq<Ipv4Addr>,
    works: Seq<HttpConnecting<E, H>>,
    shifts: Seq<Map<Seq<char>, usize>>,
    afters: Seq<HttpConnecting<E, H>>,
    shifts_after: Seq<Map<Seq<char>, usize>>,
)
    requires
        works.len() == ips.len(),
        ips.len() > 0,
        is_row(host, port, ips, works, shifts, afters, shifts_after),
        shifts[0].contains_key(host) ==> shifts[0][host] + works.len() <= usize::MAX,
        works.len() <= usize::MAX,
    ensures
        Seq::new(works.len(), |i: int| addrs_of(afters[i].state)[0]).to_multiset() == Seq::new(
            ips.len(),
            |i: int| SocketAddr::V4(SocketAddrV4 { ip: ips[i], port }),
        ).to_multiset(),
{
    let firsts = Seq::new(works.len(), |i: int| addrs_of(afters[i].state)[0]);
    let sorted = rotation::sorted_ips(ips);
    let addrs = rotation::socket_addrs(sorted, port);
    let start = shifts_after[0][host] as nat;
    rotation::law_sorting_keeps_addresses(ips);
    let turns = Seq::new(addrs.len(), |j: int| rotation::rotation(addrs, (start + j) as nat)[0]);
    assert forall|j: int| 0 <= j < ips.len() implies #[trigger] firsts[j] == turns[j] by {
        lemma_row(host, port, ips, works, shifts, afters, shifts_after, j);
    }
    assert(firsts =~= turns);
    rotation::law_round_robin_is_fair(addrs, start);
    rotation::lemma_same_socket_addrs(sorted, ips, port);
    assert(rotation::socket_addrs(ips, port) =~= Seq::new(
        ips.len(),
        |i: int| SocketAddr::V4(SocketAddrV4 { ip: ips[i], port }),
    ));
}

/// Whether the work is polled through `works`, on `events` and with `actions`.
pub open spec fn runs<E, H>(
    works: Seq<HttpConnecting<E, H>>,
    events: Seq<Event>,
    actions: Seq<Action>,
    must_bind: bool,
) -> bool {
    &&& works.len() == events.len() + 1
    &&& actions.len() == events.len()
    &&& forall|i: int|
        0 <= i < events.len() ==> works[i].expects(#[trigger] events[i]) && works[i].polled(
            events[i],
            must_bind,
            works[i + 1],
            actions[i],
        )
}

/// The addresses that sockets were opened to, in their order.
pub open spec fn opened(actions: Seq<Action>) -> Seq<SocketAddr>
    decreases actions.len(),
{
    if actions.len() == 0 {
        Seq::empty()
    } else {
        match actions.last() {
            Action::Open(plan) => opened(actions.drop_last()).push(plan.addr),
            _ => opened(actions.drop_last()),
        }
    }
}

/// However the work is polled once its addresses are known, sockets are opened to these addresses in
/// their order, each once; what was not tried yet is left. Each socket is of the family of its address
/// and bound as asked, and a socket that is handed out has the settings of the work.
pub proof fn law_addresses_are_tried_in_their_order<E, H>(
    works: Seq<HttpConnecting<E, H>>,
    events: Seq<Event>,
    actions: Seq<Action>,
    must_bind: bool,
)
    requires
        runs(works, events, actions, must_bind),
        works[0].state is Connecting,
    ensures
        works.last().state is Connecting,
        works[0].state->Connecting_0.local_addr == works.last().state->Connecting_0.local_addr,
        sets_the_same(works.last(), works[0]),
        addrs_of(works[0].state) == opened(actions) + addrs_of(works.last().state),
        forall|i: int|
            0 <= i < actions.len() ==> match #[trigger] actions[i] {
                Action::Open(plan) => {
                    &&& addrs_of(works[0].state).contains(plan.addr)
                    &&& serves(
                        plan,
                        plan.addr,
                        works[0].state->Connecting_0.local_addr,
                        must_bind,
                    )
                },
                Action::Finish(options) => {
                    &&& options.keepalive == works[0].keep_alive_timeout
                    &&& options.nodelay == works[0].nodelay
                },
                _ => true,
            },
    decreases events.len(),
{
    let n = events.len() as int;
    if n == 0 {
        assert(addrs_of(works[0].state) =~= opened(actions) + addrs_of(works.last().state));
    } else {
        let earlier = works.drop_last();
        let before = actions.drop_last();
        assert forall|i: int| 0 <= i < n - 1 implies earlier[i].expects(
            #[trigger] events.drop_last()[i],
        ) && earlier[i].polled(
            events.drop_last()[i],
            must_bind,
            earlier[i + 1],
            before[i],
        ) by {
            assert(events.drop_last()[i] == events[i]);
        }
        law_addresses_are_tried_in_their_order(earlier, events.drop_last(), before, must_bind);
        let was = earlier.last().state->Connecting_0;
        assert(works[n - 1] == earlier.last() && works[n] == works.last());
        assert(earlier[0] == works[0]);
        assert(works[n - 1].polled(events[n - 1], must_bind, works[n], actions[n - 1]));
        let all = addrs_of(works[0].state);
        if let Action::Open(plan) = actions[n - 1] {
            connecting_tcp::lemma_plan_serves(was.addrs@[0], was.local_addr, must_bind);
            assert(was.addrs@ =~= seq![was.addrs@[0]] + was.addrs@.drop_first());
            assert(all[opened(before).len() as int] == plan.addr);
        }
        assert(all =~= opened(actions) + addrs_of(works.last().state));
        assert forall|i: int| 0 <= i < n implies match #[trigger] actions[i] {
            Action::Open(plan) => {
                &&& all.contains(plan.addr)
                &&& serves(plan, plan.addr, was.local_addr, must_bind)
            },
            Action::Finish(options) => {
                &&& options.keepalive == works[0].keep_alive_timeout
                &&& options.nodelay == works[0].nodelay
            },
            _ => true,
        } by {
            if i < n - 1 {
                assert(before[i] == actions[i]);
            }
        }
    }
}

/// Whether `work` came to `after`, by an address, by what was kept, or by an answer.
pub open spec fn reaches<E, H>(work: HttpConnecting<E, H>, after: HttpConnecting<E, H>) -> bool {
    ||| exists|
        entries: Map<Seq<char>, (Vec<Ipv4Addr>, u128)>,
        shifts: Map<Seq<char>, usize>,
        now: Duration,
        shifts_after: Map<Seq<char>, usize>,
    | #[trigger] found_at_once(work, entries, shifts, now, after, shifts_after)
    ||| exists|
        entries: Map<Seq<char>, (Vec<Ipv4Addr>, u128)>,
        shifts: Map<Seq<char>, usize>,
        now: Duration,
        waiting: HttpConnecting<E, H>,
        shifts_then: Map<Seq<char>, usize>,
        executor: E,
        results: Seq<AResult>,
        entries_then: Map<Seq<char>, (Vec<Ipv4Addr>, u128)>,
        later: Duration,
        entries_after: Map<Seq<char>, (Vec<Ipv4Addr>, u128)>,
        shifts_after: Map<Seq<char>, usize>,
    | #[trigger]
        found_by_query(
            work,
            entries,
            shifts,
            now,
            waiting,
            shifts_then,
            executor,
            results,
            entries_then,
            later,
            after,
            entries_after,
            shifts_after,
        )
}

/// Whether an address is at `port`.
pub open spec fn is_at(addr: SocketAddr, port: u16) -> bool {
    match addr {
        SocketAddr::V4(a) => a.port == port,
        SocketAddr::V6(a) => a.port == port,
    }
}

/// What is kept of the work until its addresses are known.
proof fn lemma_reaches<E, H>(work: HttpConnecting<E, H>, after: HttpConnecting<E, H>)
    requires
        reaches(work, after),
    ensures
        sets_the_same(after, work),
        work.state matches State::Lazy(_, _, port, local_addr, _, _) && {
            &&& after.state is Connecting
            &&& after.state->Connecting_0.local_addr == local_addr
            &&& !after.state->Connecting_0.opening
            &&& !after.state->Connecting_0.connecting
            &&& forall|i: int|
                0 <= i < addrs_of(after.state).len() ==> is_at(
                    #[trigger] addrs_of(after.state)[i],
                    port,
                )
        },
{
}

/// From the URL to the socket: every socket that a connection opens goes to the port of its URL and
/// is bound to the local address of its connector, and the socket that it hands out has the settings of
/// its connector, however the addresses were found and however the work was polled.
pub proof fn law_from_the_url_to_the_socket<E: Clone, H: Clone>(
    connector: &HttpConnector<E, H>,
    dst: Destination,
    begun: HttpConnecting<E, H>,
    works: Seq<HttpConnecting<E, H>>,
    events: Seq<Event>,
    actions: Seq<Action>,
    must_bind: bool,
)
    requires
        call_ensures(HttpConnector::<E, H>::connect, (connector, dst), begun),
        runs(works, events, actions, must_bind),
        reaches(begun, works[0]),
    ensures
        forall|i: int|
            0 <= i < actions.len() ==> match #[trigger] actions[i] {
                Action::Open(plan) => {
                    &&& is_at(plan.addr, port_of(dst))
                    &&& serves(plan, plan.addr, connector.local_address, must_bind)
                },
                Action::Finish(options) => {
                    &&& options.keepalive == connector.keep_alive_timeout
                    &&& options.nodelay == connector.nodelay
                },
                _ => true,
            },
{
    law_connecting_begins_as_it_is_asked(connector, dst, begun);
    lemma_reaches(begun, works[0]);
    law_addresses_are_tried_in_their_order(works, events, actions, must_bind);
    let all = addrs_of(works[0].state);
    assert forall|i: int| 0 <= i < actions.len() implies match #[trigger] actions[i] {
        Action::Open(plan) => {
            &&& is_at(plan.addr, port_of(dst))
            &&& serves(plan, plan.addr, connector.local_address, must_bind)
        },
        Action::Finish(options) => {
            &&& options.keepalive == connector.keep_alive_timeout
            &&& options.nodelay == connector.nodelay
        },
        _ => true,
    } by {
        if let Action::Open(plan) = actions[i] {
            let k = choose|k: int| 0 <= k < all.len() && all[k] == plan.addr;
            assert(is_at(all[k], port_of(dst)));
        }
    }
}

/// Nothing is asked of a caller but what the work is waiting for: any URL can be connected to, any
/// event that is expected can be polled with, a host can be looked up once, and any answer can be taken
/// whose records may be kept.
pub proof fn law_nothing_else_is_asked_of_a_caller<E: Clone, H: Clone>(
    connector: &HttpConnector<E, H>,
    dst: Destination,
    work: &mut HttpConnecting<E, H>,
    event: Event,
    must_bind: bool,
    cache: &ResultCache,
    shifts: &mut RoundRobinMap,
    now: Duration,
    a_results: Vec<AResult>,
    kept: &mut ResultCache,
)
    ensures
        call_requires(HttpConnector::<E, H>::connect, (connector, dst)),
        old(work).expects(event) ==> call_requires(
            HttpConnecting::<E, H>::poll,
            (work, event, must_bind),
        ),
        old(work).state is Lazy ==> {
            &&& call_requires(HttpConnecting::<E, H>::poll_lazy_at, (work, cache, shifts, now))
            &&& call_requires(HttpConnecting::<E, H>::poll_lazy, (work, cache, shifts))
        },
        old(work).state is Resolving && (forall|i: int|
            0 <= i < a_results@.len() ==> (#[trigger] a_results@[i]).ttl >= 0) ==> {
            &&& call_requires(
                HttpConnecting::<E, H>::poll_resolving_at,
                (work, a_results, shifts, kept, now),
            )
            &&& call_requires(
                HttpConnecting::<E, H>::poll_resolving,
                (work, a_results, shifts, kept),
            )
        },
{
    records::law_least_ttl(a_results@);
}

} // verus!
