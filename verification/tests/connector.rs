use hyper_http_connector::dns::ip_addrs::IpAddrs;
use hyper_http_connector::dns::records::AResult;
use hyper_http_connector::http_connector::connecting_tcp::{
    connect, ConnectPlan, ConnectingTcp, Family, TcpAction, TcpEvent,
};
use hyper_http_connector::http_connector::connector::{Destination, HttpConnector, PoolSettings};
use hyper_http_connector::http_connector::http_connecting::{
    Action, Event, HttpConnecting, Lookup, ResultCache, SocketOptions, State,
};
use hyper_http_connector::http_connector::invalid_url::InvalidUrl;
use hyper_http_connector::http_connector::round_robin::RoundRobinMap;
use hyper_http_connector::net::{
    IpAddr, Ipv4Addr, Ipv6Addr, SocketAddr, SocketAddrV4, SocketAddrV6,
};
use hyper_http_connector::time::Duration;
use hyper_http_connector::timed_cache::TimedCache;
use std::sync::Arc;

type Connector = HttpConnector<PoolSettings, u8>;
type Connecting = HttpConnecting<PoolSettings, u8>;

fn dst(scheme: &str, host: &str, port: Option<u16>) -> Destination {
    Destination { scheme: String::from(scheme), host: String::from(host), port }
}

fn error(connecting: &mut Connecting) -> InvalidUrl {
    assert!(connecting.is_expected(Event::Resume));
    match connecting.poll(Event::Resume, false) {
        Action::Refuse(err) => err,
        _ => panic!("no error"),
    }
}

fn lazy_port(connecting: &Connecting) -> u16 {
    match connecting.state {
        State::Lazy(_, _, port, _, _, _) => port,
        _ => panic!("not lazy"),
    }
}

fn ip(d: u8) -> Ipv4Addr {
    Ipv4Addr::new(10, 0, 0, d)
}

fn at(d: u8, port: u16) -> SocketAddr {
    SocketAddr::V4(SocketAddrV4 { ip: ip(d), port })
}

fn opened(d: u8, port: u16) -> Action {
    Action::Open(ConnectPlan { addr: at(d, port), family: Family::V4, bind: None })
}

fn record(d: u8, ttl: i32) -> AResult {
    AResult { ipv4: ip(d), ttl }
}

fn start(host: &str) -> Connecting {
    let connector: Connector = HttpConnector::new(1);
    connector.connect(dst("http", host, None))
}

#[test]
fn test_errors_missing_authority() {
    let mut connector: Connector = HttpConnector::new(1);
    let mut connecting = connector.connect(dst("", "", None));
    assert_eq!(error(&mut connecting), InvalidUrl::NotHttp);
    connector.enforce_http(false);
    let mut connecting = connector.connect(dst("ftp", "", None));
    assert_eq!(error(&mut connecting), InvalidUrl::MissingAuthority);
    connector.enforce_http(true);
    let mut connecting = connector.connect(dst("http", "", Some(1)));
    assert_eq!(error(&mut connecting), InvalidUrl::MissingAuthority);
}

#[test]
fn test_errors_enforce_http() {
    let connector: Connector = HttpConnector::new(1);
    let mut connecting = connector.connect(dst("https", "example.domain", None));
    assert_eq!(error(&mut connecting), InvalidUrl::NotHttp);
}

#[test]
fn test_errors_missing_scheme() {
    let mut connector: Connector = HttpConnector::new(1);
    let mut connecting = connector.connect(dst("", "example.domain", None));
    assert_eq!(error(&mut connecting), InvalidUrl::NotHttp);
    connector.enforce_http(false);
    let mut connecting = connector.connect(dst("", "example.domain", None));
    assert_eq!(error(&mut connecting), InvalidUrl::MissingScheme);
    assert!(matches!(connecting.state, State::Error(None)));
    assert!(!connecting.is_expected(Event::Resume));
}

#[test]
fn the_words_of_the_errors() {
    assert_eq!(InvalidUrl::MissingScheme.description(), "invalid URL, missing scheme");
    assert_eq!(InvalidUrl::NotHttp.description(), "invalid URL, scheme must be http");
    assert_eq!(InvalidUrl::MissingAuthority.description(), "invalid URL, missing domain");
}

#[test]
fn schemes_are_compared_without_regard_to_case() {
    let mut connector: Connector = HttpConnector::new(1);
    assert_eq!(lazy_port(&connector.connect(dst("HtTp", "example.domain", None))), 80);
    connector.enforce_http(false);
    assert_eq!(lazy_port(&connector.connect(dst("HTTPS", "example.domain", None))), 443);
    assert_eq!(lazy_port(&connector.connect(dst("httpss", "example.domain", None))), 80);
}

#[test]
fn ports_are_those_of_the_url_or_of_the_scheme() {
    let mut connector: Connector = HttpConnector::new(1);
    connector.enforce_http(false);
    assert_eq!(lazy_port(&connector.connect(dst("http", "h", None))), 80);
    assert_eq!(lazy_port(&connector.connect(dst("https", "h", None))), 443);
    assert_eq!(lazy_port(&connector.connect(dst("ftp", "h", None))), 80);
    assert_eq!(lazy_port(&connector.connect(dst("https", "h", Some(8443)))), 8443);
}

#[test]
fn the_defaults_and_the_settings() {
    let mut connector: Connector = HttpConnector::new_with_handle(4, 9);
    assert_eq!(connector.executor, PoolSettings { name_prefix: "hyper-dns", pool_size: 4 });
    assert_eq!(connector.handle, Some(9));
    assert!(connector.enforce_http);
    assert_eq!(connector.keep_alive_timeout, None);
    assert!(!connector.nodelay);
    assert_eq!(connector.local_address, None);

    connector.set_keepalive(Some(Duration::from_secs(7)));
    connector.set_nodelay(true);
    connector.set_local_address(Some(IpAddr::V4(ip(1))));
    let connecting = connector.connect(dst("http", "h", None));
    assert_eq!(connecting.keep_alive_timeout, Some(Duration::from_secs(7)));
    assert!(connecting.nodelay);
    assert_eq!(connecting.handle, Some(9));
    match connecting.state {
        State::Lazy(executor, host, port, local_addr, map, cache) => {
            assert_eq!(executor.pool_size, 4);
            assert_eq!(host.as_str(), "h");
            assert_eq!(port, 80);
            assert_eq!(local_addr, Some(IpAddr::V4(ip(1))));
            assert!(Arc::ptr_eq(&map, &connector.round_robin_map));
            assert!(Arc::ptr_eq(&cache, &connector.result_cache));
        },
        _ => panic!("not lazy"),
    }
}

#[test]
fn a_refused_url_has_no_settings() {
    let mut connector: Connector = HttpConnector::new_with_handle(1, 3);
    connector.set_keepalive(Some(Duration::from_secs(7)));
    connector.set_nodelay(true);
    let connecting = connector.connect(dst("ftp", "h", None));
    assert_eq!(connecting.keep_alive_timeout, None);
    assert!(!connecting.nodelay);
    assert_eq!(connecting.handle, Some(3));
}

#[test]
fn clones_share_the_tables() {
    let connector: HttpConnector<&str, u8> = HttpConnector::new_with_executor("here", None);
    let other = connector.clone();
    assert_eq!(other.executor, "here");
    assert_eq!(connector.round_robin_map.lock().get_and_incr(Arc::new(String::from("h"))), 0);
    assert_eq!(other.round_robin_map.lock().get_and_incr(Arc::new(String::from("h"))), 1);
    let key = Arc::new(String::from("h"));
    connector.result_cache.write().set(Arc::clone(&key), vec![ip(1)], Duration::from_secs(60));
    assert_eq!(other.result_cache.read().get(&key), Some(&vec![ip(1)]));
}

#[test]
fn shifts_count_up_for_each_host() {
    let mut map = RoundRobinMap::new();
    let a = Arc::new(String::from("a"));
    let b = Arc::new(String::from("b"));
    assert_eq!(map.get_and_incr(Arc::clone(&a)), 0);
    assert_eq!(map.get_and_incr(Arc::clone(&a)), 1);
    assert_eq!(map.get_and_incr(Arc::clone(&b)), 0);
    assert_eq!(map.get_and_incr(Arc::clone(&a)), 2);
    assert_eq!(map.get_and_incr(Arc::clone(&b)), 1);
}

#[test]
fn a_literal_is_connected_to_without_a_query() {
    let cache: ResultCache = TimedCache::new();
    let mut map = RoundRobinMap::new();
    let mut connecting = start("10.0.0.5");
    assert!(matches!(connecting.poll_lazy(&cache, &mut map), Lookup::Connect));
    assert_eq!(connecting.poll(Event::Resume, false), opened(5, 80));
    assert_eq!(connecting.poll(Event::SocketOpened, false), Action::PollSocket);
    assert_eq!(connecting.poll(Event::Resume, false), Action::PollSocket);
    assert_eq!(connecting.poll(Event::SocketFailed, false), Action::GiveUp);
    assert_eq!(map.get_and_incr(Arc::new(String::from("10.0.0.5"))), 0);
}

#[test]
fn an_answer_is_tried_in_turn_and_kept() {
    let mut cache: ResultCache = TimedCache::new();
    let mut map = RoundRobinMap::new();

    let mut first = start("example.domain");
    match first.poll_lazy_at(&cache, &mut map, Duration::from_secs(100)) {
        Lookup::Resolve(executor) => assert_eq!(executor.pool_size, 1),
        Lookup::Connect => panic!("nothing is known of the host"),
    }
    assert!(matches!(first.state, State::Resolving(_, 80, None, _, _)));
    first.poll_resolving_at(
        vec![record(3, 60), record(1, 30), record(2, 90)],
        &mut map,
        &mut cache,
        Duration::from_secs(101),
    );
    assert_eq!(first.poll(Event::Resume, false), opened(1, 80));
    assert_eq!(first.poll(Event::SocketOpened, false), Action::PollSocket);
    assert_eq!(first.poll(Event::SocketFailed, false), opened(2, 80));
    assert_eq!(first.poll(Event::SocketOpened, false), Action::PollSocket);
    assert_eq!(first.poll(Event::SocketFailed, false), opened(3, 80));
    assert_eq!(first.poll(Event::SocketOpened, false), Action::PollSocket);
    assert_eq!(first.poll(Event::SocketFailed, false), Action::GiveUp);

    let mut second = start("example.domain");
    let late = Duration { secs: 130, nanos: 999_999_999 };
    assert!(matches!(second.poll_lazy_at(&cache, &mut map, late), Lookup::Connect));
    assert_eq!(second.poll(Event::Resume, false), opened(2, 80));

    let mut third = start("example.domain");
    let too_late = Duration::from_secs(131);
    assert!(matches!(third.poll_lazy_at(&cache, &mut map, too_late), Lookup::Resolve(_)));
}

#[test]
fn the_clock_decides_how_long_an_answer_is_kept() {
    let mut cache: ResultCache = TimedCache::new();
    let mut map = RoundRobinMap::new();
    let mut first = start("example.domain");
    assert!(matches!(first.poll_lazy(&cache, &mut map), Lookup::Resolve(_)));
    first.poll_resolving(vec![record(1, 3600)], &mut map, &mut cache);
    let mut second = start("example.domain");
    assert!(matches!(second.poll_lazy(&cache, &mut map), Lookup::Connect));
    let mut third = start("other.domain");
    assert!(matches!(third.poll_lazy(&cache, &mut map), Lookup::Resolve(_)));
    third.poll_resolving(vec![record(1, 0)], &mut map, &mut cache);
    let mut fourth = start("other.domain");
    assert!(matches!(fourth.poll_lazy(&cache, &mut map), Lookup::Resolve(_)));
}

#[test]
fn an_empty_answer_is_not_kept() {
    let mut cache: ResultCache = TimedCache::new();
    let mut map = RoundRobinMap::new();
    let now = Duration::from_secs(0);
    let mut first = start("example.domain");
    assert!(matches!(first.poll_lazy_at(&cache, &mut map, now), Lookup::Resolve(_)));
    first.poll_resolving_at(vec![], &mut map, &mut cache, now);
    assert!(matches!(first.state, State::Connecting(_)));
    assert!(!first.is_expected(Event::Resume));
    assert_eq!(cache.get_at(&Arc::new(String::from("example.domain")), now), None);
    assert_eq!(map.get_and_incr(Arc::new(String::from("example.domain"))), 1);
}

#[test]
fn connections_take_turns() {
    let mut cache: ResultCache = TimedCache::new();
    let mut map = RoundRobinMap::new();
    let now = Duration::from_secs(0);
    cache.set_at(
        Arc::new(String::from("example.domain")),
        vec![ip(2), ip(3), ip(1)],
        Duration::from_secs(60),
        now,
    );
    let mut firsts = Vec::new();
    for _ in 0..4 {
        let mut connecting = start("example.domain");
        assert!(matches!(connecting.poll_lazy_at(&cache, &mut map, now), Lookup::Connect));
        firsts.push(connecting.poll(Event::Resume, false));
    }
    assert_eq!(firsts, vec![opened(1, 80), opened(2, 80), opened(3, 80), opened(1, 80)]);
}

#[test]
fn sockets_are_bound_as_asked() {
    let six = Ipv6Addr { segments: [0, 0, 0, 0, 0, 0, 0, 1] };
    let remote = SocketAddr::V6(SocketAddrV6 { ip: six, port: 80, flowinfo: 0, scope_id: 0 });
    assert_eq!(
        connect(&remote, &None, false),
        ConnectPlan { addr: remote, family: Family::V6, bind: None }
    );
    assert_eq!(
        connect(&remote, &None, true).bind,
        Some(SocketAddr::V6(SocketAddrV6 {
            ip: Ipv6Addr { segments: [0; 8] },
            port: 0,
            flowinfo: 0,
            scope_id: 0,
        }))
    );
    assert_eq!(
        connect(&at(1, 80), &None, true).bind,
        Some(SocketAddr::V4(SocketAddrV4 { ip: Ipv4Addr::new(0, 0, 0, 0), port: 0 }))
    );
    assert_eq!(
        connect(&at(1, 80), &Some(IpAddr::V4(ip(7))), true),
        ConnectPlan { addr: at(1, 80), family: Family::V4, bind: Some(at(7, 0)) }
    );
    assert_eq!(
        connect(&at(1, 80), &Some(IpAddr::V6(six)), false).bind,
        Some(SocketAddr::V6(SocketAddrV6 { ip: six, port: 0, flowinfo: 0, scope_id: 0 }))
    );
}

#[test]
fn a_connected_socket_gets_its_options() {
    let cache: ResultCache = TimedCache::new();
    let mut map = RoundRobinMap::new();
    let mut connector: Connector = HttpConnector::new(1);
    connector.set_keepalive(Some(Duration::from_secs(7)));
    connector.set_nodelay(true);
    let mut connecting = connector.connect(dst("http", "::1", Some(8080)));
    assert_eq!(connecting.poll(Event::Resume, false), Action::LookUp);
    assert!(matches!(connecting.poll_lazy(&cache, &mut map), Lookup::Connect));
    let six = Ipv6Addr { segments: [0, 0, 0, 0, 0, 0, 0, 1] };
    assert_eq!(
        connecting.poll(Event::Resume, false),
        Action::Open(ConnectPlan {
            addr: SocketAddr::V6(SocketAddrV6 { ip: six, port: 8080, flowinfo: 0, scope_id: 0 }),
            family: Family::V6,
            bind: None,
        })
    );
    assert_eq!(connecting.poll(Event::SocketOpened, false), Action::PollSocket);
    assert_eq!(connecting.poll(Event::SocketPending, false), Action::NotReady);
    assert_eq!(connecting.poll(Event::Resume, false), Action::PollSocket);
    assert_eq!(
        connecting.poll(Event::SocketConnected, false),
        Action::Finish(SocketOptions { keepalive: Some(Duration::from_secs(7)), nodelay: true })
    );
}

#[test]
fn a_socket_must_be_open_for_something_to_happen_to_it() {
    let cache: ResultCache = TimedCache::new();
    let mut map = RoundRobinMap::new();
    let mut connecting = start("10.0.0.5");
    assert!(matches!(connecting.poll_lazy(&cache, &mut map), Lookup::Connect));
    assert!(!connecting.is_expected(Event::SocketPending));
    assert!(!connecting.is_expected(Event::SocketFailed));
    assert!(!connecting.is_expected(Event::SocketConnected));
    assert!(!connecting.is_expected(Event::SocketOpened));
    assert!(!connecting.is_expected(Event::SocketOpenFailed));
    assert_eq!(connecting.poll(Event::Resume, false), opened(5, 80));
    assert!(connecting.is_expected(Event::SocketOpened));
    assert!(connecting.is_expected(Event::SocketOpenFailed));
    assert!(!connecting.is_expected(Event::Resume));
    assert!(!connecting.is_expected(Event::SocketPending));
    assert!(!connecting.is_expected(Event::SocketFailed));
    assert!(!connecting.is_expected(Event::SocketConnected));
    assert_eq!(connecting.poll(Event::SocketOpened, false), Action::PollSocket);
    assert!(!connecting.is_expected(Event::SocketOpened));
    assert!(!connecting.is_expected(Event::SocketOpenFailed));
    assert!(connecting.is_expected(Event::SocketPending));
    assert!(connecting.is_expected(Event::SocketFailed));
    assert!(connecting.is_expected(Event::SocketConnected));
    assert!(connecting.is_expected(Event::Resume));
}

#[test]
fn a_new_connector_knows_of_no_host() {
    let connector: Connector = HttpConnector::new(1);
    let key = Arc::new(String::from("h"));
    assert_eq!(connector.result_cache.read().get(&key), None);
    assert_eq!(connector.round_robin_map.lock().get_and_incr(key), 0);
}

#[test]
fn a_query_is_waited_for_and_may_fail() {
    let cache: ResultCache = TimedCache::new();
    let mut map = RoundRobinMap::new();
    let mut connecting = start("example.domain");
    assert!(!connecting.is_expected(Event::AnswerPending));
    assert_eq!(connecting.poll(Event::Resume, false), Action::LookUp);
    assert!(matches!(connecting.poll_lazy(&cache, &mut map), Lookup::Resolve(_)));
    assert_eq!(connecting.poll(Event::Resume, false), Action::PollAnswer);
    assert_eq!(connecting.poll(Event::AnswerPending, false), Action::NotReady);
    assert_eq!(connecting.poll(Event::Resume, false), Action::PollAnswer);
    assert_eq!(connecting.poll(Event::AnswerFailed, false), Action::FailAnswer);
    assert!(matches!(connecting.state, State::Resolving(_, 80, None, _, _)));
}

#[test]
fn a_socket_that_could_not_be_opened_leaves_the_next_address() {
    let mut tcp = ConnectingTcp {
        addrs: IpAddrs::new(80, vec![ip(1), ip(2)], 0),
        local_addr: Some(IpAddr::V4(ip(9))),
        opening: false,
        connecting: false,
    };
    let plan = |d: u8| ConnectPlan { addr: at(d, 80), family: Family::V4, bind: Some(at(9, 0)) };
    assert_eq!(tcp.poll(TcpEvent::Resume, false), TcpAction::Open(plan(1)));
    assert!(tcp.opening && !tcp.connecting);
    assert_eq!(tcp.poll(TcpEvent::OpenFailed, false), TcpAction::FailOpen);
    assert!(!tcp.opening && !tcp.connecting);
    assert_eq!(tcp.poll(TcpEvent::Resume, false), TcpAction::Open(plan(2)));
    assert_eq!(tcp.poll(TcpEvent::Opened, false), TcpAction::Poll);
    assert!(!tcp.opening && tcp.connecting);
    assert_eq!(tcp.poll(TcpEvent::Failed, false), TcpAction::GiveUp);
}

#[test]
fn a_socket_that_could_not_be_opened_after_another_fails_the_work() {
    let mut cache: ResultCache = TimedCache::new();
    let mut map = RoundRobinMap::new();
    let mut connecting = start("example.domain");
    assert!(matches!(connecting.poll_lazy(&cache, &mut map), Lookup::Resolve(_)));
    let answer = vec![record(1, 30), record(2, 30), record(3, 30)];
    connecting.poll_resolving(answer, &mut map, &mut cache);
    assert_eq!(connecting.poll(Event::Resume, false), opened(1, 80));
    assert_eq!(connecting.poll(Event::SocketOpened, false), Action::PollSocket);
    assert_eq!(connecting.poll(Event::SocketFailed, false), opened(2, 80));
    assert_eq!(connecting.poll(Event::SocketOpenFailed, false), Action::FailOpen);
    assert_eq!(connecting.poll(Event::Resume, false), Action::PollSocket);
    assert_eq!(connecting.poll(Event::SocketFailed, false), opened(3, 80));
}

#[test]
fn the_last_socket_that_could_not_be_opened_leaves_nothing_to_try() {
    let cache: ResultCache = TimedCache::new();
    let mut map = RoundRobinMap::new();
    let mut connecting = start("10.0.0.5");
    assert!(matches!(connecting.poll_lazy(&cache, &mut map), Lookup::Connect));
    assert_eq!(connecting.poll(Event::Resume, false), opened(5, 80));
    assert_eq!(connecting.poll(Event::SocketOpenFailed, false), Action::FailOpen);
    assert!(!connecting.is_expected(Event::Resume));
}

#[test]
fn places_beyond_the_greatest_number_are_not_expected() {
    let mut tcp = ConnectingTcp {
        addrs: IpAddrs::new(80, vec![ip(1), ip(2)], usize::MAX),
        local_addr: None,
        opening: false,
        connecting: false,
    };
    assert!(tcp.addrs.is_countable());
    assert_eq!(
        tcp.poll(TcpEvent::Resume, false),
        TcpAction::Open(ConnectPlan { addr: at(2, 80), family: Family::V4, bind: None })
    );
    assert!(!tcp.addrs.is_countable());
}
