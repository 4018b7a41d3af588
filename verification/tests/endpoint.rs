use outbound::addr::{Addr, NameAddr, SocketAddr, SocketAddrV4, SocketAddrV6};
use outbound::endpoint::{
    balance_target, concrete_target, forward_target, tcp_target, Meta, Protocol, Settings,
};
use outbound::identity::{Conditional, Name, ReasonForNoIdentity};
use outbound::labels::{trace_labels, LabelTransport, Side, TransportLabels};
use outbound::layer::{LogContext, TargetMap};
use outbound::target::{AnyTarget, LogAddr, LogFields};
use outbound::{Concrete, HttpEndpoint, Logical, Profile, Target, TcpEndpoint};

fn socket(last: u32, port: u16) -> SocketAddr {
    SocketAddr::V4(SocketAddrV4 { ip: 0x0a00_0000 + last, port })
}

fn name(name: &str) -> Addr {
    Addr::Name(NameAddr { name: name.to_string(), port: 80 })
}

fn endpoint(last: u32, settings: Settings) -> HttpEndpoint {
    HttpEndpoint {
        addr: socket(last, 8080),
        settings,
        identity: Conditional::Identity(Name { name: "web.ns".to_string() }),
    }
}

fn logical() -> Logical<HttpEndpoint> {
    Target { addr: name("web"), inner: endpoint(1, Settings::Http2) }
}

#[test]
fn a_logical_target_is_its_own_concrete_target() {
    let concrete = concrete_target(logical());
    assert_eq!(concrete.addr, name("web"));
    assert_eq!(concrete.inner, logical());
}

#[test]
fn an_unresolved_target_is_dispatched_to_itself() {
    assert_eq!(forward_target(concrete_target(logical())), logical());
}

#[test]
fn an_override_keeps_the_endpoint() {
    let overridden: Concrete<HttpEndpoint> = Target { addr: name("web-v2"), inner: logical() };
    assert_eq!(
        forward_target(overridden),
        Target { addr: name("web-v2"), inner: endpoint(1, Settings::Http2) }
    );
}

#[test]
fn balancers_are_shared_by_addresses_and_settings() {
    let settings =
        Settings::Http1 { keep_alive: true, wants_h1_upgrade: false, was_absolute_form: false };
    let target = |last: u32, settings: Settings| -> Concrete<HttpEndpoint> {
        Target {
            addr: name("web-v2"),
            inner: Target { addr: name("web"), inner: endpoint(last, settings) },
        }
    };
    let shared = balance_target(target(1, settings));
    assert_eq!(shared.addr, name("web-v2"));
    assert_eq!(shared.inner.addr, name("web"));
    assert_eq!(shared.inner.inner, settings);
    assert_eq!(shared, balance_target(target(2, settings)));
    assert_ne!(shared, balance_target(target(1, Settings::Http2)));
}

#[test]
fn targets_are_mapped_under_their_address() {
    let mapped = Target { addr: name("web"), inner: 3u8 }.map(|n: u8| n as u32 + 1);
    assert_eq!(mapped, Target { addr: name("web"), inner: 4u32 });
}

#[test]
fn streams_are_forwarded_to_where_they_were_going() {
    let target_addr =
        SocketAddr::V6(SocketAddrV6 { ip: 1, port: 5432, flowinfo: 7, scope_id: 9 });
    let meta = Meta {
        peer_identity: Conditional::NoIdentity(ReasonForNoIdentity::Loopback),
        target_addr,
    };
    assert_eq!(tcp_target(&meta), target_addr);
}

#[test]
fn connections_are_labeled_as_connects() {
    let target = logical();
    let key = TransportLabels.transport_labels(&target);
    assert_eq!(key.side, Side::Connect);
    assert_eq!(key.direction, "outbound");
    assert_eq!(key.identity, Conditional::Identity(&Name { name: "web.ns".to_string() }));

    let tcp = TcpEndpoint {
        addr: socket(1, 5432),
        identity: Conditional::NoIdentity(ReasonForNoIdentity::Other("not HTTP".to_string())),
    };
    let key = TransportLabels.transport_labels(&tcp);
    assert_eq!(key.side, Side::Connect);
    assert_eq!(key.direction, "outbound");
    assert_eq!(
        key.identity,
        Conditional::NoIdentity(ReasonForNoIdentity::Other("not HTTP".to_string()))
    );
}

#[test]
fn accepted_connections_are_labeled_as_accepts() {
    let protocol = Protocol {
        tls: Meta {
            peer_identity: Conditional::NoIdentity(ReasonForNoIdentity::Loopback),
            target_addr: socket(1, 80),
        },
    };
    let key = TransportLabels.transport_labels(&protocol);
    assert_eq!(key.side, Side::Accept);
    assert_eq!(key.direction, "outbound");
    assert_eq!(key.identity, Conditional::NoIdentity(ReasonForNoIdentity::Loopback));
}

#[test]
fn spans_are_labeled_outbound() {
    let labels = trace_labels();
    assert_eq!(labels.len(), 1);
    assert_eq!(labels.get("direction"), Some(&"outbound".to_string()));
}

#[test]
fn addresses_are_cloned_whole() {
    assert_eq!(name("web").clone(), name("web"));
    assert_eq!(Addr::Socket(socket(1, 80)).clone(), Addr::Socket(socket(1, 80)));
}

fn accepted() -> AnyTarget {
    AnyTarget::Accepted(Meta {
        peer_identity: Conditional::NoIdentity(ReasonForNoIdentity::Loopback),
        target_addr: socket(7, 443),
    })
}

#[test]
fn maps_make_the_targets_they_are_named_for() {
    assert_eq!(TargetMap::Tcp.apply(accepted()), Some(AnyTarget::Tcp(socket(7, 443))));
    let concrete = TargetMap::Concrete.apply(AnyTarget::Logical(logical())).unwrap();
    assert_eq!(concrete, AnyTarget::Concrete(concrete_target(logical())));
    assert_eq!(TargetMap::Forward.apply(concrete), Some(AnyTarget::Endpoint(logical())));
    assert_eq!(
        TargetMap::Balance.apply(AnyTarget::Concrete(concrete_target(logical()))),
        Some(AnyTarget::Balanced(balance_target(concrete_target(logical()))))
    );
}

#[test]
fn maps_make_nothing_of_other_targets() {
    assert_eq!(TargetMap::Tcp.apply(AnyTarget::Logical(logical())), None);
    assert_eq!(TargetMap::Forward.apply(accepted()), None);
    assert_eq!(TargetMap::Balance.apply(AnyTarget::Logical(logical())), None);
    assert_eq!(TargetMap::Concrete.apply(AnyTarget::Tcp(socket(1, 80))), None);
}

#[test]
fn contexts_show_addresses_and_identities() {
    let target = AnyTarget::Endpoint(logical());
    let id = Conditional::Identity(Name { name: "web.ns".to_string() });
    assert_eq!(
        LogContext::Endpoint.fields(&target),
        Some(LogFields { addr: Some(LogAddr::Socket(socket(1, 8080))), id: Some(&id) })
    );
    assert_eq!(
        LogContext::Forward.fields(&target),
        Some(LogFields { addr: Some(LogAddr::Addr(&name("web"))), id: Some(&id) })
    );
    let overridden: Concrete<HttpEndpoint> = Target { addr: name("web-v2"), inner: logical() };
    assert_eq!(
        LogContext::Balance.fields(&AnyTarget::Balanced(balance_target(overridden))),
        Some(LogFields { addr: Some(LogAddr::Addr(&name("web-v2"))), id: None })
    );
    assert_eq!(
        LogContext::Logical.fields(&AnyTarget::Logical(logical())),
        Some(LogFields { addr: Some(LogAddr::Addr(&name("web"))), id: None })
    );
    assert_eq!(
        LogContext::Profile.fields(&AnyTarget::Profile(Profile { addr: name("web") })),
        Some(LogFields { addr: None, id: None })
    );
    assert_eq!(LogContext::Profile.fields(&AnyTarget::Logical(logical())), None);
    assert_eq!(
        LogContext::Source.fields(&accepted()),
        Some(LogFields { addr: Some(LogAddr::Socket(socket(7, 443))), id: None })
    );
    let foo = "foo.ns".to_string();
    assert_eq!(
        LogContext::Canonicalize.fields(&AnyTarget::DnsName(foo.clone())),
        Some(LogFields { addr: Some(LogAddr::Name(&foo)), id: None })
    );
    assert_eq!(LogContext::Source.fields(&target), None);
}
