//! The attempts to reach one of the addresses of a host.
use crate::dns::ip_addrs::IpAddrs;
use crate::net::{IpAddr, Ipv4Addr, Ipv6Addr, SocketAddr, SocketAddrV4, SocketAddrV6};
use vstd::prelude::*;

verus! {

/// A family of sockets.
#[derive(Debug, Clone, Copy, PartialEq, Eq)]
pub enum Family {
    V4,
    V6,
}

/// How a connection to an address is opened: a socket of `family`, bound to `bind` where there is
/// one, is connected to `addr`.
#[derive(Debug, Clone, Copy, PartialEq, Eq)]
pub struct ConnectPlan {
    pub addr: SocketAddr,
    pub family: Family,
    pub bind: Option<SocketAddr>,
}

/// The family of a socket address.
pub open spec fn family_of(addr: SocketAddr) -> Family {
    match addr {
        SocketAddr::V4(_) => Family::V4,
        SocketAddr::V6(_) => Family::V6,
    }
}

/// Any free port of a local address.
pub open spec fn any_port(local: IpAddr) -> SocketAddr {
    match local {
        IpAddr::V4(ip) => SocketAddr::V4(SocketAddrV4 { ip, port: 0 }),
        IpAddr::V6(ip) => SocketAddr::V6(SocketAddrV6 { ip, port: 0, flowinfo: 0, scope_id: 0 }),
    }
}

/// The address of a family that stands for every local address.
pub open spec fn unspecified(family: Family) -> IpAddr {
    match family {
        Family::V4 => IpAddr::V4(Ipv4Addr { octets: [0, 0, 0, 0] }),
        Family::V6 => IpAddr::V6(Ipv6Addr { segments: [0, 0, 0, 0, 0, 0, 0, 0] }),
    }
}

/// How a connection to `addr` is opened. The socket is bound to the local address that was asked
/// for; where none was, it is bound only where the system asks for it, to every local address.
pub open spec fn connect_plan(
    addr: SocketAddr,
    local_addr: Option<IpAddr>,
    must_bind: bool,
) -> ConnectPlan {
    ConnectPlan {
        addr,
        family: family_of(addr),
        bind: match local_addr {
            Some(local) => Some(any_port(local)),
            None => if must_bind {
                Some(any_port(unspecified(family_of(addr))))
            } else {
                None
            },
        },
    }
}

/// Plans how a connection to `addr` is opened. `must_bind` says whether the system asks for a
/// socket to be bound before it is connected.
pub fn connect(addr: &SocketAddr, local_addr: &Option<IpAddr>, must_bind: bool) -> (plan:
    ConnectPlan)
    ensures
        plan == connect_plan(*addr, *local_addr, must_bind),
{
    let family = match *addr {
        SocketAddr::V4(_) => Family::V4,
        SocketAddr::V6(_) => Family::V6,
    };
    let local = match *local_addr {
        Some(local) => Some(local),
        None => if must_bind {
            Some(
                match family {
                    Family::V4 => IpAddr::V4(Ipv4Addr { octets: [0, 0, 0, 0] }),
                    Family::V6 => IpAddr::V6(Ipv6Addr { segments: [0, 0, 0, 0, 0, 0, 0, 0] }),
                },
            )
        } else {
            None
        },
    };
    let bind = match local {
        Some(IpAddr::V4(ip)) => Some(SocketAddr::V4(SocketAddrV4 { ip, port: 0 })),
        Some(IpAddr::V6(ip)) => Some(
            SocketAddr::V6(SocketAddrV6 { ip, port: 0, flowinfo: 0, scope_id: 0 }),
        ),
        None => None,
    };
    ConnectPlan { addr: *addr, family, bind }
}

/// What has happened to a connection that is being made.
#[derive(Debug, Clone, Copy, PartialEq, Eq)]
pub enum TcpEvent {
    /// It is to be driven on.
    Resume,
    /// The socket that was to be opened is open, and is connecting.
    Opened,
    /// The socket that was to be opened could not be opened.
    OpenFailed,
    /// The socket that was connecting has failed.
    Failed,
}

/// What is to be done about a connection that is being made.
#[derive(Debug, Clone, Copy, PartialEq, Eq)]
pub enum TcpAction {
    /// Ask the socket that is connecting how it stands.
    Poll,
    /// Open a socket.
    Open(ConnectPlan),
    /// Fail with the error of the socket that could not be opened.
    FailOpen,
    /// Fail with the error of the last socket that was connecting.
    GiveUp,
}

/// A connection that is being made to one of several addresses: those that are still to be tried,
/// the local address that sockets are to be bound to, whether a socket was called for of which it is
/// not known yet whether it could be opened, and whether a socket was opened.
pub struct ConnectingTcp {
    pub addrs: IpAddrs,
    pub local_addr: Option<IpAddr>,
    pub opening: bool,
    pub connecting: bool,
}

/// Whether an event calls for another address.
pub open spec fn needs_address(connecting: bool, event: TcpEvent) -> bool {
    match event {
        TcpEvent::Resume => !connecting,
        TcpEvent::Opened => false,
        TcpEvent::OpenFailed => false,
        TcpEvent::Failed => true,
    }
}

/// The action on an event, where `addrs` are still to be tried.
pub open spec fn tcp_action(
    addrs: Seq<SocketAddr>,
    local_addr: Option<IpAddr>,
    connecting: bool,
    event: TcpEvent,
    must_bind: bool,
) -> TcpAction {
    if event is OpenFailed {
        TcpAction::FailOpen
    } else if !needs_address(connecting, event) {
        TcpAction::Poll
    } else if addrs.len() > 0 {
        TcpAction::Open(connect_plan(addrs[0], local_addr, must_bind))
    } else {
        TcpAction::GiveUp
    }
}

/// The addresses that are still to be tried after an event.
pub open spec fn tcp_rest(addrs: Seq<SocketAddr>, connecting: bool, event: TcpEvent) -> Seq<
    SocketAddr,
> {
    if needs_address(connecting, event) && addrs.len() > 0 {
        addrs.drop_first()
    } else {
        addrs
    }
}

impl ConnectingTcp {
    /// Whether an event can happen as the connection stands. While a socket is being opened, it is
    /// opened or it is not, and nothing else happens; else neither does. Only a socket that is
    /// connecting can fail, and without one there must be an address to try: else there would be no
    /// error to give up with. The place of an address that is called for must be countable.
    pub open spec fn expects(self, event: TcpEvent) -> bool {
        match event {
            TcpEvent::Resume => !self.opening && (self.connecting || (self.addrs@.len() > 0
                && self.addrs.can_count())),
            TcpEvent::Opened => self.opening,
            TcpEvent::OpenFailed => self.opening,
            TcpEvent::Failed => !self.opening && self.connecting && self.addrs.can_count(),
        }
    }

    /// Decides what is to be done on an event. The addresses are tried in turn, each once; the
    /// connection fails when the last of them has failed. Where a socket cannot be opened, it fails
    /// at once: the address is used up, and no other one is tried.
    pub fn poll(&mut self, event: TcpEvent, must_bind: bool) -> (action: TcpAction)
        requires
            old(self).expects(event),
        ensures
            action == tcp_action(
                old(self).addrs@,
                old(self).local_addr,
                old(self).connecting,
                event,
                must_bind,
            ),
            final(self).addrs@ == tcp_rest(old(self).addrs@, old(self).connecting, event),
            final(self).addrs.position() == old(self).addrs.position() + (if action is Open {
                1int
            } else {
                0
            }),
            final(self).local_addr == old(self).local_addr,
            final(self).opening == (action is Open),
            final(self).connecting == (old(self).connecting || event is Opened),
            event is OpenFailed ==> {
                &&& action is FailOpen
                &&& final(self).addrs@ == old(self).addrs@
                &&& final(self).connecting == old(self).connecting
            },
            action is FailOpen ==> event is OpenFailed && old(self).opening,
            action is GiveUp ==> event is Failed && old(self).connecting,
    {
        match event {
            TcpEvent::Opened => {
                self.opening = false;
                self.connecting = true;
                return TcpAction::Poll;
            },
            TcpEvent::OpenFailed => {
                self.opening = false;
                return TcpAction::FailOpen;
            },
            TcpEvent::Resume => {
                if self.connecting {
                    return TcpAction::Poll;
                }
            },
            TcpEvent::Failed => {},
        }
        match self.addrs.next() {
            Some(addr) => {
                self.opening = true;
                TcpAction::Open(connect(&addr, &self.local_addr, must_bind))
            },
            None => TcpAction::GiveUp,
        }
    }
}

/// The addresses that are still to be tried once `count` attempts were called for.
pub open spec fn rest_after(addrs: Seq<SocketAddr>, count: nat) -> Seq<SocketAddr>
    decreases count,
{
    if count == 0 {
        addrs
    } else {
        tcp_rest(rest_after(addrs, (count - 1) as nat), true, TcpEvent::Failed)
    }
}

/// A connection whose attempts all fail tries each address once, in the order of the addresses, and
/// gives up when there is none left. The attempt `count` is called for by the first poll if it is
/// the first one, and by the failure of the attempt before it else.
pub proof fn law_addresses_are_tried_in_turn(
    addrs: Seq<SocketAddr>,
    local_addr: Option<IpAddr>,
    must_bind: bool,
    count: nat,
)
    requires
        addrs.len() > 0,
    ensures
        tcp_action(
            rest_after(addrs, count),
            local_addr,
            count > 0,
            if count == 0 {
                TcpEvent::Resume
            } else {
                TcpEvent::Failed
            },
            must_bind,
        ) == (if count < addrs.len() {
            TcpAction::Open(connect_plan(addrs[count as int], local_addr, must_bind))
        } else {
            TcpAction::GiveUp
        }),
        count <= addrs.len() ==> rest_after(addrs, count) == addrs.skip(count as int),
        count >= addrs.len() ==> rest_after(addrs, count).len() == 0,
    decreases count,
{
    if count > 0 {
        law_addresses_are_tried_in_turn(addrs, local_addr, must_bind, (count - 1) as nat);
    }
    if count <= addrs.len() {
        assert(rest_after(addrs, count) =~= addrs.skip(count as int));
    }
}

/// While a socket is connecting, driving the connection on leaves the addresses alone.
pub proof fn law_no_address_is_lost_while_connecting(
    addrs: Seq<SocketAddr>,
    local_addr: Option<IpAddr>,
    must_bind: bool,
)
    ensures
        tcp_rest(addrs, true, TcpEvent::Resume) == addrs,
        tcp_action(addrs, local_addr, true, TcpEvent::Resume, must_bind) == TcpAction::Poll,
{
}

/// Where a socket cannot be opened, the connection fails with that error, whether or not another
/// socket was opened before, and the addresses that were not tried yet are left.
pub proof fn law_open_failure_leaves_the_addresses(
    addrs: Seq<SocketAddr>,
    local_addr: Option<IpAddr>,
    connecting: bool,
    must_bind: bool,
)
    ensures
        tcp_action(addrs, local_addr, connecting, TcpEvent::OpenFailed, must_bind)
            == TcpAction::FailOpen,
        tcp_rest(addrs, connecting, TcpEvent::OpenFailed) == addrs,
{
}

/// Whether `bind` is `local` with any free port.
pub open spec fn is_any_port_of(bind: SocketAddr, local: IpAddr) -> bool {
    match (bind, local) {
        (SocketAddr::V4(b), IpAddr::V4(ip)) => b.ip == ip && b.port == 0,
        (SocketAddr::V6(b), IpAddr::V6(ip)) => b.ip == ip && b.port == 0 && b.flowinfo == 0
            && b.scope_id == 0,
        _ => false,
    }
}

/// Whether `bind` is every local address of its family, with any free port.
pub open spec fn is_any_local(bind: SocketAddr) -> bool {
    match bind {
        SocketAddr::V4(b) => b.port == 0 && forall|i: int|
            0 <= i < 4 ==> #[trigger] b.ip.octets[i] == 0,
        SocketAddr::V6(b) => b.port == 0 && b.flowinfo == 0 && b.scope_id == 0 && forall|i: int|
            0 <= i < 8 ==> #[trigger] b.ip.segments[i] == 0,
    }
}

/// Whether a socket that is opened by `plan` goes to `addr` and is bound as asked: to the local
/// address that was asked for; where none was, to nothing, unless the system asks for it, and then to
/// every local address of its family.
pub open spec fn serves(
    plan: ConnectPlan,
    addr: SocketAddr,
    local_addr: Option<IpAddr>,
    must_bind: bool,
) -> bool {
    &&& plan.addr == addr
    &&& plan.family is V4 <==> addr is V4
    &&& match (local_addr, plan.bind) {
        (Some(local), Some(bind)) => is_any_port_of(bind, local),
        (Some(_), None) => false,
        (None, Some(bind)) => must_bind && is_any_local(bind) && (bind is V4 <==> addr is V4),
        (None, None) => !must_bind,
    }
}

/// What is planned for an address goes to this address, by a socket of its family, which is bound as
/// asked.
pub proof fn law_a_plan_serves_its_address(
    addr: &SocketAddr,
    local_addr: &Option<IpAddr>,
    must_bind: bool,
    plan: ConnectPlan,
)
    requires
        call_ensures(connect, (addr, local_addr, must_bind), plan),
    ensures
        serves(plan, *addr, *local_addr, must_bind),
{
    lemma_plan_serves(*addr, *local_addr, must_bind);
}

/// The plan for an address serves it.
pub proof fn lemma_plan_serves(addr: SocketAddr, local_addr: Option<IpAddr>, must_bind: bool)
    ensures
        serves(connect_plan(addr, local_addr, must_bind), addr, local_addr, must_bind),
{
}

/// Every socket that is opened goes to the first of the addresses that are still to be tried, which
/// is used up by it, and is bound as asked. Nothing else uses up an address.
pub proof fn law_sockets_go_where_they_should(
    addrs: Seq<SocketAddr>,
    local_addr: Option<IpAddr>,
    connecting: bool,
    event: TcpEvent,
    must_bind: bool,
)
    ensures
        match tcp_action(addrs, local_addr, connecting, event, must_bind) {
            TcpAction::Open(plan) => {
                &&& addrs.len() > 0
                &&& serves(plan, addrs[0], local_addr, must_bind)
                &&& addrs == seq![plan.addr] + tcp_rest(addrs, connecting, event)
            },
            _ => tcp_rest(addrs, connecting, event) == addrs,
        },
{
    if addrs.len() > 0 {
        lemma_plan_serves(addrs[0], local_addr, must_bind);
        assert(addrs =~= seq![addrs[0]] + addrs.drop_first());
    }
}

/// Every socket that is opened is bound to the local address that was asked for. Where none was, it
/// is not bound, unless the system asks for it.
pub proof fn law_sockets_are_bound_as_asked(
    addrs: Seq<SocketAddr>,
    local_addr: Option<IpAddr>,
    connecting: bool,
    event: TcpEvent,
    must_bind: bool,
)
    ensures
        tcp_action(addrs, local_addr, connecting, event, must_bind) matches TcpAction::Open(plan)
            ==> {
            &&& local_addr matches Some(local) ==> plan.bind == Some(any_port(local))
            &&& local_addr matches Some(IpAddr::V4(ip)) ==> plan.bind == Some(
                SocketAddr::V4(SocketAddrV4 { ip, port: 0 }),
            )
            &&& local_addr matches Some(IpAddr::V6(ip)) ==> plan.bind == Some(
                SocketAddr::V6(SocketAddrV6 { ip, port: 0, flowinfo: 0, scope_id: 0 }),
            )
            &&& local_addr is None && !must_bind ==> plan.bind is None
        },
{
}

/// What a poll comes to: each event has its action, and a socket that is opened serves the next
/// address, which is used up by it.
pub proof fn law_each_event_has_its_action(
    tcp: &mut ConnectingTcp,
    event: TcpEvent,
    must_bind: bool,
    action: TcpAction,
)
    requires
        old(tcp).expects(event),
        call_ensures(ConnectingTcp::poll, (tcp, event, must_bind), action),
    ensures
        match event {
            TcpEvent::Resume if old(tcp).connecting => action is Poll,
            TcpEvent::Resume => action is Open,
            TcpEvent::Opened => action is Poll,
            TcpEvent::OpenFailed => action is FailOpen,
            TcpEvent::Failed => if old(tcp).addrs@.len() > 0 {
                action is Open
            } else {
                action is GiveUp
            },
        },
        match action {
            TcpAction::Open(plan) => {
                &&& old(tcp).addrs@.len() > 0
                &&& serves(plan, old(tcp).addrs@[0], old(tcp).local_addr, must_bind)
                &&& old(tcp).addrs@ == seq![plan.addr] + final(tcp).addrs@
                &&& final(tcp).addrs.position() == old(tcp).addrs.position() + 1
            },
            _ => {
                &&& final(tcp).addrs@ == old(tcp).addrs@
                &&& final(tcp).addrs.position() == old(tcp).addrs.position()
            },
        },
        final(tcp).local_addr == old(tcp).local_addr,
        final(tcp).opening <==> action is Open,
        final(tcp).connecting <==> old(tcp).connecting || event is Opened,
{
    law_sockets_go_where_they_should(
        old(tcp).addrs@,
        old(tcp).local_addr,
        old(tcp).connecting,
        event,
        must_bind,
    );
}

} // verus!
