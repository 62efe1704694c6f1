//! What holds of the connector as a whole.
use crate::dns::{literal, records, rotation};
use crate::dns::records::AResult;
use crate::http_connector::{connector, http_connecting, round_robin};
use crate::http_connector::connector::Destination;
use crate::http_connector::http_connecting::{Action, Event, HttpConnecting, Lookup, State};
use crate::net::Ipv4Addr;
use crate::time::{Duration, NANOS_PER_SEC};
use vstd::prelude::*;

verus! {

/// A connector that enforces `http` connects to every `http` URL with a host, and to no other URL.
/// It connects to the port of the URL, or else to port 80.
pub proof fn law_enforced_scheme(dst: Destination)
    ensures
        connector::accepted(true, dst) is Ok <==> (connector::same_but_case(
            dst.scheme@,
            "http"@,
        ) && dst.host@.len() > 0),
        connector::accepted(true, dst) matches Ok(port) ==> port == dst.port.unwrap_or(80),
{
    reveal_strlit("http");
    reveal_strlit("https");
}

/// A connector that does not enforce `http` connects to every URL with a scheme and a host, and to
/// no other URL.
pub proof fn law_any_scheme(dst: Destination)
    ensures
        connector::accepted(false, dst) is Ok <==> (dst.scheme@.len() > 0 && dst.host@.len() > 0),
{
}

/// Whatever a connector that enforces `http` connects to, one that does not connects to as well, at
/// the same port.
pub proof fn law_enforcing_only_refuses(dst: Destination)
    requires
        connector::accepted(true, dst) is Ok,
    ensures
        connector::accepted(false, dst) == connector::accepted(true, dst),
{
    reveal_strlit("http");
}

/// The error of a URL that cannot be connected to is handed out by the first poll, and nothing can
/// happen after that.
pub proof fn law_refused_once<E, H>(
    connecting: HttpConnecting<E, H>,
    event: Event,
    must_bind: bool,
    after: HttpConnecting<E, H>,
    action: Action,
    next: Event,
)
    requires
        connecting.state is Error,
        connecting.expects(event),
        connecting.polled(event, must_bind, after, action),
    ensures
        connecting.state matches State::Error(Some(err)) && action == Action::Refuse(err),
        !after.expects(next),
{
}

/// While there is nothing to report, the work stays as it is.
pub proof fn law_waiting_changes_nothing<E, H>(
    connecting: HttpConnecting<E, H>,
    event: Event,
    must_bind: bool,
    after: HttpConnecting<E, H>,
    action: Action,
)
    requires
        connecting.expects(event),
        connecting.polled(event, must_bind, after, action),
        event is AnswerPending || event is SocketPending,
    ensures
        action == Action::NotReady,
        after == connecting,
{
}

/// No poll changes the settings, and a socket that has connected, and no other, is handed out with
/// them.
pub proof fn law_settings_reach_the_socket<E, H>(
    connecting: HttpConnecting<E, H>,
    event: Event,
    must_bind: bool,
    after: HttpConnecting<E, H>,
    action: Action,
)
    requires
        connecting.expects(event),
        connecting.polled(event, must_bind, after, action),
    ensures
        after.same_settings(connecting),
        after.handle == connecting.handle,
        after.keep_alive_timeout == connecting.keep_alive_timeout,
        after.nodelay == connecting.nodelay,
        event is SocketConnected <==> action is Finish,
        action matches Action::Finish(options) ==> {
            &&& options.keepalive == connecting.keep_alive_timeout
            &&& options.nodelay == connecting.nodelay
        },
{
}

/// No socket is opened, and none is finished, before the host has been looked up.
pub proof fn law_nothing_is_opened_before_the_look_up<E, H>(
    connecting: HttpConnecting<E, H>,
    event: Event,
    must_bind: bool,
    after: HttpConnecting<E, H>,
    action: Action,
)
    requires
        connecting.expects(event),
        connecting.polled(event, must_bind, after, action),
        action is Open || action is Finish,
    ensures
        connecting.state is Connecting,
{
}

/// Whether a socket could be opened is asked where a socket was called for, and only there; nothing
/// else can happen until it is known.
pub proof fn law_opening_is_answered<E, H>(
    connecting: HttpConnecting<E, H>,
    event: Event,
    must_bind: bool,
    after: HttpConnecting<E, H>,
    action: Action,
    next: Event,
)
    requires
        connecting.expects(event),
        connecting.polled(event, must_bind, after, action),
    ensures
        next is SocketOpened || next is SocketOpenFailed ==> (after.expects(next)
            <==> action is Open),
        action is Open && after.expects(next) ==> next is SocketOpened || next is SocketOpenFailed,
{
}

/// Where a socket cannot be opened, the work fails with that error. The address that was called for
/// stays used up, no other one is tried, and a socket that was opened before is kept. A poll after
/// that goes on with that socket, or else with the next address.
pub proof fn law_open_failure_ends_the_poll<E, H>(
    connecting: HttpConnecting<E, H>,
    must_bind: bool,
    after: HttpConnecting<E, H>,
    action: Action,
)
    requires
        connecting.expects(Event::SocketOpenFailed),
        connecting.polled(Event::SocketOpenFailed, must_bind, after, action),
    ensures
        action == Action::FailOpen,
        after.same_settings(connecting),
        after.handle == connecting.handle,
        after.keep_alive_timeout == connecting.keep_alive_timeout,
        after.nodelay == connecting.nodelay,
        connecting.state matches State::Connecting(was) && after.state matches State::Connecting(
            tcp,
        ) && {
            &&& tcp.addrs@ == was.addrs@
            &&& tcp.addrs.position() == was.addrs.position()
            &&& tcp.local_addr == was.local_addr
            &&& tcp.connecting == was.connecting
            &&& !tcp.opening
            &&& after.expects(Event::Resume) <==> was.connecting || (was.addrs@.len() > 0
                && tcp.addrs.can_count())
        },
{
}

/// A host that is written as an address is connected to without a query, whatever is in the cache,
/// and without a turn of its counter.
pub proof fn law_literal_needs_no_query<E, H>(
    connecting: HttpConnecting<E, H>,
    entries: Map<Seq<char>, (Vec<Ipv4Addr>, u128)>,
    shifts: Map<Seq<char>, usize>,
    now: Duration,
    after: HttpConnecting<E, H>,
    shifts_after: Map<Seq<char>, usize>,
    lookup: Lookup<E>,
)
    requires
        connecting.looked_up(entries, shifts, now, after, shifts_after, lookup),
        connecting.state matches State::Lazy(_, host, port, _, _, _)
            && literal::literal_addr(host@, port) is Some,
    ensures
        lookup is Connect,
        shifts_after == shifts,
        connecting.state matches State::Lazy(_, host, port, local_addr, _, _) && after.state.tries(
            seq![literal::literal_addr(host@, port).unwrap()],
            0,
            local_addr,
        ),
{
}

/// What was answered is used again: until the least time to live of the answer has passed, a
/// connection to the same host is made to the addresses of the answer, without a query. From then
/// on it takes another query.
pub proof fn law_answer_is_kept<E, H>(
    first: HttpConnecting<E, H>,
    results: Seq<AResult>,
    entries: Map<Seq<char>, (Vec<Ipv4Addr>, u128)>,
    shifts: Map<Seq<char>, usize>,
    now: Duration,
    first_after: HttpConnecting<E, H>,
    entries_after: Map<Seq<char>, (Vec<Ipv4Addr>, u128)>,
    shifts_after: Map<Seq<char>, usize>,
    second: HttpConnecting<E, H>,
    later_shifts: Map<Seq<char>, usize>,
    later: Duration,
    second_after: HttpConnecting<E, H>,
    later_shifts_after: Map<Seq<char>, usize>,
    lookup: Lookup<E>,
)
    requires
        first.answered(results, entries, shifts, now, first_after, entries_after, shifts_after),
        second.looked_up(
            entries_after,
            later_shifts,
            later,
            second_after,
            later_shifts_after,
            lookup,
        ),
        first.state matches State::Resolving(host, _, _, _, _) && second.state matches State::Lazy(
            _,
            other,
            port,
            _,
            _,
            _,
        ) && other@ == host@ && literal::literal_addr(host@, port) is None,
        records::least_ttl(results) matches Some(ttl) && ttl >= 0,
    ensures
        ({
            let ttl = records::least_ttl(results).unwrap();
            let kept = later.total_nanos() < now.total_nanos() + ttl * NANOS_PER_SEC;
            &&& lookup is Connect <==> kept
            &&& kept ==> (second.state matches State::Lazy(_, host, port, local_addr, _, _) && {
                let shift = round_robin::next_shift(later_shifts, host@);
                second_after.state.tries(
                    http_connecting::walk(records::record_ips(results), port, shift),
                    shift as nat,
                    local_addr,
                )
            })
        }),
{
}

/// An answer without addresses is not kept, and nothing is left to connect to: the work cannot be
/// driven on.
pub proof fn law_empty_answer<E, H>(
    connecting: HttpConnecting<E, H>,
    entries: Map<Seq<char>, (Vec<Ipv4Addr>, u128)>,
    shifts: Map<Seq<char>, usize>,
    now: Duration,
    after: HttpConnecting<E, H>,
    entries_after: Map<Seq<char>, (Vec<Ipv4Addr>, u128)>,
    shifts_after: Map<Seq<char>, usize>,
)
    requires
        connecting.answered(
            Seq::<AResult>::empty(),
            entries,
            shifts,
            now,
            after,
            entries_after,
            shifts_after,
        ),
    ensures
        entries_after == entries,
        after.state is Connecting,
        !after.expects(Event::Resume),
{
    rotation::law_sorting_keeps_addresses(records::record_ips(Seq::<AResult>::empty()));
}

/// A connection tries every address of its host exactly as often as it was answered, whatever the
/// shift.
pub proof fn law_every_address_is_tried(ips: Seq<Ipv4Addr>, port: u16, shift: usize)
    ensures
        http_connecting::walk(ips, port, shift).to_multiset() == rotation::socket_addrs(
            ips,
            port,
        ).to_multiset(),
        http_connecting::walk(ips, port, shift).len() == ips.len(),
{
    let sorted = rotation::sorted_ips(ips);
    rotation::law_sorting_keeps_addresses(ips);
    rotation::law_rotation_visits_all(rotation::socket_addrs(sorted, port), shift as nat);
    rotation::lemma_same_socket_addrs(sorted, ips, port);
}

/// The shift that a connection takes after `count` others to the same host.
pub open spec fn turn(shifts: Map<Seq<char>, usize>, host: Seq<char>, count: nat) -> usize {
    round_robin::next_shift(round_robin::shifted_times(shifts, host, count), host)
}

/// Round robin: of as many connections to a host as it has addresses, one after another, each
/// address is tried first exactly as often as it was answered, unless the counter begins anew among
/// them.
pub proof fn law_connections_take_turns(
    shifts: Map<Seq<char>, usize>,
    host: Seq<char>,
    ips: Seq<Ipv4Addr>,
    port: u16,
)
    requires
        ips.len() > 0,
        round_robin::next_shift(shifts, host) + ips.len() - 1 <= usize::MAX,
    ensures
        Seq::new(
            ips.len(),
            |j: int| http_connecting::walk(ips, port, turn(shifts, host, j as nat))[0],
        ).to_multiset() == rotation::socket_addrs(ips, port).to_multiset(),
{
    let sorted = rotation::sorted_ips(ips);
    let addrs = rotation::socket_addrs(sorted, port);
    let start = round_robin::next_shift(shifts, host) as nat;
    let firsts = Seq::new(
        ips.len(),
        |j: int| http_connecting::walk(ips, port, turn(shifts, host, j as nat))[0],
    );
    rotation::law_sorting_keeps_addresses(ips);
    let turns = Seq::new(addrs.len(), |j: int| rotation::rotation(addrs, (start + j) as nat)[0]);
    assert forall|j: int| 0 <= j < ips.len() implies #[trigger] firsts[j] == turns[j] by {
        round_robin::law_shifts_count_up(shifts, host, j as nat);
    }
    assert(firsts =~= turns);
    rotation::law_round_robin_is_fair(addrs, start);
    rotation::lemma_same_socket_addrs(sorted, ips, port);
}

/// The connection after another to a host with the same addresses begins with the address that the
/// other one tries second, unless the counter begins anew between them.
pub proof fn law_next_connection_begins_one_further(
    shifts: Map<Seq<char>, usize>,
    host: Seq<char>,
    ips: Seq<Ipv4Addr>,
    port: u16,
)
    requires
        ips.len() > 1,
        round_robin::next_shift(shifts, host) < usize::MAX,
    ensures
        ({
            let shift = round_robin::next_shift(shifts, host);
            let next = round_robin::next_shift(round_robin::shifted(shifts, host), host);
            http_connecting::walk(ips, port, next)[0] == http_connecting::walk(ips, port, shift)[1]
        }),
{
    rotation::law_sorting_keeps_addresses(ips);
}

} // verus!
