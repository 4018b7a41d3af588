use outbound::addr::{SocketAddr, SocketAddrV4};
use outbound::config::{Backoff, Bind, Config, ConnectConfig, H2Settings, ProxyConfig, ServerConfig};
use outbound::discovery::{DiscoveryError, Error};
use outbound::identity::{Conditional, Name, ReasonForNoIdentity};
use outbound::layer::{
    Base, Header, Layer, LockError, LogContext, Message, Push, Recognize, Scope, SpanKind, Stack,
    StackName, TargetMap,
};
use outbound::plan::Plan;
use std::time::Duration;

const LISTEN: SocketAddr = SocketAddr::V4(SocketAddrV4 { ip: 0x7f00_0001, port: 4140 });

fn config() -> Config<&'static str> {
    let h2 = |n: u32| H2Settings {
        initial_stream_window_size: Some(n),
        initial_connection_window_size: None,
    };
    Config {
        proxy: ProxyConfig {
            server: ServerConfig {
                bind: Bind {
                    bind_addr: LISTEN,
                    keepalive: Some(Duration::from_secs(1)),
                    orig_dst_addr: "system",
                },
                h2_settings: h2(2),
            },
            connect: ConnectConfig {
                backoff: backoff(),
                timeout: Duration::from_secs(3),
                keepalive: Some(Duration::from_secs(4)),
                h2_settings: h2(5),
            },
            cache_capacity: 6,
            cache_max_idle_age: Duration::from_secs(7),
            disable_protocol_detection_for_ports: vec![25, 3306],
            service_acquisition_timeout: Duration::from_secs(8),
            max_in_flight_requests: 9,
        },
        canonicalize_timeout: Duration::from_secs(11),
    }
}

fn backoff() -> Backoff {
    Backoff {
        min: Duration::from_millis(100),
        max: Duration::from_millis(500),
        jitter_bits: 0.1f64.to_bits(),
    }
}

fn identity() -> Conditional<Name> {
    Conditional::Identity(Name { name: "client.ns".to_string() })
}

fn plan(span_sink: bool) -> Plan {
    config()
        .build(identity(), span_sink, Ok::<SocketAddr, Error>(LISTEN))
        .unwrap()
        .serve
}

fn stack(plan: &Plan, name: StackName) -> &Stack {
    plan.stacks.iter().find(|stack| stack.name == name).unwrap()
}

fn make(layer: Layer) -> Push {
    Push { scope: Scope::Make, layer }
}

fn each(layer: Layer) -> Push {
    Push { scope: Scope::Service, layer }
}

fn cache() -> Push {
    make(Layer::Cache { capacity: 6, max_idle_age: Duration::from_secs(7) })
}

fn is_built(name: StackName, base: Base, layers: Vec<Push>) {
    let plan = plan(true);
    let stack = stack(&plan, name);
    assert_eq!(stack.base, base);
    assert_eq!(stack.layers, layers);
}

/// The layers that a request to a stack meets, in the order in which it meets them.
fn met(plan: &Plan, name: StackName, rejected: &[StackName]) -> Vec<String> {
    let stack = stack(plan, name);
    let err = Error::Discovery(DiscoveryError::DiscoveryRejected);
    let instead = if rejected.contains(&name) { stack.recover(&err) } else { None };
    let own = match instead {
        Some(_) => {
            1 + stack
                .layers
                .iter()
                .position(|push| matches!(push.layer, Layer::FallbackIfRejected(_)))
                .unwrap()
        }
        None => 0,
    };
    let mut layers: Vec<String> = vec![];
    for push in stack.layers[own..].iter().rev() {
        layers.push(format!("{:?}", push.layer));
        if let Layer::Profiles(route) = push.layer {
            layers.extend(met(plan, route, rejected));
        }
    }
    match (instead, stack.base) {
        (Some(below), _) => layers.extend(met(plan, below, rejected)),
        (None, Base::Stack(below)) => layers.extend(met(plan, below, rejected)),
        (None, _) => (),
    }
    layers
}

fn place(layers: &[String], layer: &Layer) -> usize {
    layers.iter().position(|met| *met == format!("{:?}", layer)).unwrap()
}

fn every_rejection() -> Vec<Vec<StackName>> {
    vec![
        vec![],
        vec![StackName::HttpConcrete],
        vec![StackName::HttpLogicalRouter],
        vec![StackName::HttpConcrete, StackName::HttpLogicalRouter],
    ]
}

#[test]
fn a_bound_proxy_is_built() {
    let built = config().build(identity(), true, Ok::<SocketAddr, String>(LISTEN)).unwrap();
    assert_eq!(built.listen_addr, LISTEN);
    assert_eq!(built.serve.stacks.len(), 13);
}

#[test]
fn a_proxy_that_cannot_bind_is_not_built() {
    let failure = config().build(identity(), true, Err("address in use".to_string())).unwrap_err();
    assert_eq!(failure, "address in use");
}

#[test]
fn only_the_original_destination_is_replaced() {
    let replaced = config().with_orig_dst_addr(5u8);
    assert_eq!(replaced.proxy.server.bind.orig_dst_addr, 5u8);
    assert_eq!(replaced.with_orig_dst_addr("system"), config());
}

#[test]
fn routing_ignores_what_recovers_original_destinations() {
    let other = config()
        .with_orig_dst_addr(5u8)
        .build(identity(), true, Ok::<SocketAddr, Error>(LISTEN))
        .unwrap()
        .serve;
    let plan = plan(true);
    assert_eq!(other.stacks, plan.stacks);
    assert_eq!(other.server, plan.server);
    assert_eq!(other.accept, plan.accept);
    assert_eq!(other.trace_labels, plan.trace_labels);
}

#[test]
fn connections_are_made() {
    is_built(
        StackName::TcpConnect,
        Base::Connect { keepalive: Some(Duration::from_secs(4)) },
        vec![
            make(Layer::TlsClient(identity())),
            make(Layer::Timeout(Duration::from_secs(3))),
            make(Layer::TransportMetrics),
        ],
    );
    is_built(
        StackName::TcpForward,
        Base::Stack(StackName::TcpConnect),
        vec![make(Layer::MapTarget(TargetMap::Tcp)), make(Layer::TcpForward)],
    );
}

#[test]
fn endpoints_are_reached() {
    is_built(
        StackName::HttpEndpoint,
        Base::Stack(StackName::TcpConnect),
        vec![
            make(Layer::HttpClient(config().proxy.connect.h2_settings)),
            make(Layer::Reconnect(backoff())),
            make(Layer::Tap),
            make(Layer::EndpointMetrics),
            each(Layer::TraceContext(Some(SpanKind::Client))),
            each(Layer::StripHeader(Message::Response, Header::RemoteIp)),
            each(Layer::StripHeader(Message::Response, Header::ServerId)),
            each(Layer::StripHeader(Message::Request, Header::RequireId)),
            make(Layer::RequireIdentity),
            make(Layer::NormalizeUri),
            make(Layer::OrigProtoUpgrade),
            make(Layer::Log(LogContext::Endpoint)),
        ],
    );
}

#[test]
fn concrete_targets_are_balanced_or_forwarded() {
    is_built(
        StackName::HttpBalancerCache,
        Base::Stack(StackName::HttpEndpoint),
        vec![
            each(Layer::BoxRequest),
            make(Layer::SpawnReady),
            make(Layer::Discover { capacity: 10, max_idle_age: Duration::from_secs(7) }),
            each(Layer::Balance { default_rtt_millis: 30, decay_secs: 10 }),
            make(Layer::Pending),
            each(Layer::Lock(LockError::Discovery)),
            cache(),
            make(Layer::Log(LogContext::Balance)),
        ],
    );
    is_built(
        StackName::HttpForwardCache,
        Base::Stack(StackName::HttpEndpoint),
        vec![
            each(Layer::BoxRequest),
            make(Layer::Pending),
            each(Layer::Lock(LockError::Opaque)),
            cache(),
            make(Layer::Log(LogContext::Forward)),
            make(Layer::MapTarget(TargetMap::Forward)),
        ],
    );
    is_built(
        StackName::HttpForward,
        Base::Stack(StackName::HttpForwardCache),
        vec![each(Layer::BoxedHttpResponse)],
    );
    is_built(
        StackName::HttpConcrete,
        Base::Stack(StackName::HttpBalancerCache),
        vec![
            make(Layer::MapTarget(TargetMap::Balance)),
            each(Layer::BoxedHttpResponse),
            make(Layer::MakeReady),
            make(Layer::FallbackIfRejected(StackName::HttpForward)),
        ],
    );
}

#[test]
fn logical_targets_are_routed_by_profile() {
    is_built(
        StackName::HttpProfileRouteProxy,
        Base::Proxies,
        vec![
            make(Layer::Retry),
            make(Layer::RequestTimeout),
            make(Layer::RouteMetrics),
            make(Layer::Classify),
        ],
    );
    is_built(
        StackName::HttpLogicalProfileCache,
        Base::Stack(StackName::HttpConcrete),
        vec![
            each(Layer::BoxRequest),
            make(Layer::Profiles(StackName::HttpProfileRouteProxy)),
            each(Layer::MapTarget(TargetMap::Concrete)),
            make(Layer::Pending),
            each(Layer::Lock(LockError::Discovery)),
            cache(),
            make(Layer::Log(LogContext::Profile)),
            make(Layer::Router(Recognize::ProfilePerTarget)),
        ],
    );
    is_built(
        StackName::HttpLogicalConcrete,
        Base::Stack(StackName::HttpConcrete),
        vec![
            make(Layer::MapTarget(TargetMap::Concrete)),
            each(Layer::BoxedHttpResponse),
            each(Layer::BoxedHttpRequest),
        ],
    );
    is_built(
        StackName::HttpLogicalRouter,
        Base::Stack(StackName::HttpLogicalProfileCache),
        vec![
            each(Layer::BoxedHttpResponse),
            make(Layer::MakeReady),
            make(Layer::FallbackIfRejected(StackName::HttpLogicalConcrete)),
            make(Layer::HeaderFromTarget(Header::CanonicalDst)),
            make(Layer::Canonicalize {
                refine: StackName::DnsRefineCache,
                timeout: Duration::from_secs(11),
            }),
            each(Layer::StripHeader(Message::Request, Header::ClientId)),
            each(Layer::StripHeader(Message::Request, Header::DstOverride)),
            make(Layer::Log(LogContext::Logical)),
        ],
    );
}

#[test]
fn names_are_refined() {
    is_built(
        StackName::DnsRefineCache,
        Base::DnsRefine,
        vec![
            each(Layer::Lock(LockError::Opaque)),
            cache(),
            make(Layer::Log(LogContext::Canonicalize)),
            make(Layer::MakeResponse),
            make(Layer::Oneshot),
        ],
    );
}

#[test]
fn requests_are_admitted() {
    is_built(
        StackName::HttpServer,
        Base::Stack(StackName::HttpLogicalRouter),
        vec![
            make(Layer::MakeReady),
            make(Layer::Timeout(Duration::from_secs(8))),
            make(Layer::Router(Recognize::LogicalPerRequest)),
            make(Layer::InsertTarget),
            each(Layer::Oneshot),
            each(Layer::ConcurrencyLimit(9)),
            each(Layer::LoadShed),
            each(Layer::Errors),
            each(Layer::TraceContext(Some(SpanKind::Server))),
            each(Layer::HandleTime),
            make(Layer::Log(LogContext::Source)),
        ],
    );
}

#[test]
fn accepted_connections_are_served_without_identity() {
    let plan = plan(true);
    assert_eq!(plan.server.tcp, StackName::TcpForward);
    assert_eq!(plan.server.http, StackName::HttpServer);
    assert_eq!(plan.server.h2_settings, config().proxy.server.h2_settings);
    assert_eq!(plan.accept.identity, Conditional::NoIdentity(ReasonForNoIdentity::Loopback));
}

#[test]
fn ports_are_skipped_for_tls_and_for_protocols() {
    let plan = plan(true);
    assert_eq!(plan.server.disable_protocol_detection_for_ports, vec![25, 3306]);
    assert_eq!(plan.accept.skip_ports, vec![25, 3306]);
}

#[test]
fn exported_spans_are_labeled() {
    let labels = plan(true).trace_labels;
    assert_eq!(labels.len(), 1);
    assert_eq!(labels.get("direction"), Some(&"outbound".to_string()));
}

#[test]
fn without_a_sink_no_spans_are_exported() {
    for sink in [true, false] {
        let mut contexts = 0;
        for stack in &plan(sink).stacks {
            for push in &stack.layers {
                if let Layer::TraceContext(kind) = push.layer {
                    assert_eq!(kind.is_some(), sink);
                    contexts += 1;
                }
            }
        }
        assert_eq!(contexts, 2);
    }
}

#[test]
fn stacks_are_assembled_in_order() {
    let mut known: Vec<StackName> = vec![];
    for stack in plan(true).stacks {
        assert!(!known.contains(&stack.name));
        if let Base::Stack(base) = stack.base {
            assert!(known.contains(&base));
        }
        for push in &stack.layers {
            match push.layer {
                Layer::FallbackIfRejected(used) => assert!(known.contains(&used)),
                Layer::Profiles(used) => assert!(known.contains(&used)),
                Layer::Canonicalize { refine, .. } => assert!(known.contains(&refine)),
                _ => (),
            }
        }
        known.push(stack.name);
    }
}

#[test]
fn every_cache_keeps_the_configured_limits() {
    let mut caches = 0;
    for stack in plan(true).stacks {
        for push in stack.layers {
            if let Layer::Cache { .. } = push.layer {
                assert_eq!(push, cache());
                caches += 1;
            }
        }
    }
    assert_eq!(caches, 4);
}

#[test]
fn rejections_are_recovered_from() {
    let plan = plan(true);
    let rejected = Error::Discovery(DiscoveryError::from(Error::InvalidProfileAddr));
    let concrete = stack(&plan, StackName::HttpConcrete);
    let logical = stack(&plan, StackName::HttpLogicalRouter);
    assert_eq!(concrete.recover(&rejected), Some(StackName::HttpForward));
    assert_eq!(logical.recover(&rejected), Some(StackName::HttpLogicalConcrete));
    assert_eq!(stack(&plan, StackName::HttpServer).recover(&rejected), None);
    assert_eq!(concrete.recover(&Error::DiscoveryRejected), None);
    assert_eq!(concrete.recover(&Error::Other("discovery rejected".to_string())), None);
    let inner = Error::Discovery(DiscoveryError::from(Error::Other("timed out".to_string())));
    assert_eq!(concrete.recover(&inner), None);
}

#[test]
fn fallbacks_are_asked_about_classified_failures() {
    let plan = plan(true);
    for (name, below) in [
        (StackName::HttpConcrete, StackName::HttpBalancerCache),
        (StackName::HttpLogicalRouter, StackName::HttpLogicalProfileCache),
    ] {
        assert_eq!(stack(&plan, name).base, Base::Stack(below));
        let lock = stack(&plan, below)
            .layers
            .iter()
            .rev()
            .find(|push| matches!(push.layer, Layer::Lock(_)))
            .unwrap();
        assert_eq!(*lock, each(Layer::Lock(LockError::Discovery)));
    }
}

#[test]
fn requests_meet_their_layers_in_order() {
    let plan = plan(true);
    let client = Layer::HttpClient(config().proxy.connect.h2_settings);
    let order = vec![
        Layer::HandleTime,
        Layer::TraceContext(Some(SpanKind::Server)),
        Layer::Errors,
        Layer::LoadShed,
        Layer::ConcurrencyLimit(9),
        Layer::Oneshot,
        Layer::InsertTarget,
        Layer::Router(Recognize::LogicalPerRequest),
        Layer::Timeout(Duration::from_secs(8)),
        Layer::StripHeader(Message::Request, Header::DstOverride),
        Layer::StripHeader(Message::Request, Header::ClientId),
        Layer::Canonicalize {
            refine: StackName::DnsRefineCache,
            timeout: Duration::from_secs(11),
        },
        Layer::HeaderFromTarget(Header::CanonicalDst),
        Layer::OrigProtoUpgrade,
        Layer::NormalizeUri,
        Layer::RequireIdentity,
        Layer::StripHeader(Message::Request, Header::RequireId),
        Layer::EndpointMetrics,
        Layer::Tap,
        client,
        Layer::Timeout(Duration::from_secs(3)),
        Layer::TlsClient(identity()),
    ];
    for rejected in every_rejection() {
        let layers = met(&plan, plan.server.http, &rejected);
        for pair in order.windows(2) {
            assert!(place(&layers, &pair[0]) < place(&layers, &pair[1]));
        }
        place(&layers, &Layer::StripHeader(Message::Response, Header::RemoteIp));
        place(&layers, &Layer::StripHeader(Message::Response, Header::ServerId));
        assert_eq!(place(&layers, &Layer::TlsClient(identity())), layers.len() - 1);
    }
}

#[test]
fn rejected_requests_are_forwarded() {
    let plan = plan(true);
    for rejected in every_rejection() {
        let layers = met(&plan, plan.server.http, &rejected);
        let meets = |layer: Layer| layers.contains(&format!("{:?}", layer));
        let target_rejected = rejected.contains(&StackName::HttpConcrete);
        let profile_rejected = rejected.contains(&StackName::HttpLogicalRouter);
        assert_eq!(meets(Layer::MapTarget(TargetMap::Forward)), target_rejected);
        assert_eq!(meets(Layer::MapTarget(TargetMap::Balance)), !target_rejected);
        assert_eq!(
            meets(Layer::Balance { default_rtt_millis: 30, decay_secs: 10 }),
            !target_rejected
        );
        assert_eq!(
            meets(Layer::Profiles(StackName::HttpProfileRouteProxy)),
            !profile_rejected
        );
    }
}

#[test]
fn routes_configure_the_requests_of_profiles() {
    let plan = plan(true);
    let order = vec![
        Layer::Profiles(StackName::HttpProfileRouteProxy),
        Layer::Classify,
        Layer::RouteMetrics,
        Layer::RequestTimeout,
        Layer::Retry,
        Layer::RequireIdentity,
    ];
    for rejected in every_rejection() {
        let layers = met(&plan, plan.server.http, &rejected);
        if rejected.contains(&StackName::HttpLogicalRouter) {
            for layer in &order[..5] {
                assert!(!layers.contains(&format!("{:?}", layer)));
            }
        } else {
            for pair in order.windows(2) {
                assert!(place(&layers, &pair[0]) < place(&layers, &pair[1]));
            }
        }
    }
}

#[test]
fn canonical_destinations_are_not_removed() {
    let plan = plan(true);
    let strip = Layer::StripHeader(Message::Request, Header::CanonicalDst);
    for rejected in every_rejection() {
        let layers = met(&plan, plan.server.http, &rejected);
        assert!(!layers.contains(&format!("{:?}", strip)));
    }
}

#[test]
fn requests_are_traced_as_served_and_as_sent() {
    for sink in [true, false] {
        let plan = plan(sink);
        let client = Layer::TraceContext(if sink { Some(SpanKind::Client) } else { None });
        let server = Layer::TraceContext(if sink { Some(SpanKind::Server) } else { None });
        for rejected in every_rejection() {
            let layers = met(&plan, plan.server.http, &rejected);
            place(&layers, &client);
            place(&layers, &server);
        }
    }
}

#[test]
fn streams_are_forwarded_over_a_connection() {
    let plan = plan(true);
    assert_eq!(
        met(&plan, plan.server.tcp, &[]),
        vec![
            "TcpForward".to_string(),
            "MapTarget(Tcp)".to_string(),
            "TransportMetrics".to_string(),
            "Timeout(3s)".to_string(),
            format!("{:?}", Layer::TlsClient(identity())),
        ]
    );
}

#[test]
fn connections_are_made_again_whatever_failed() {
    assert_eq!(backoff().after(&"refused".to_string()), Ok(backoff()));
    assert_eq!(backoff().after(&Error::DiscoveryRejected), Ok(backoff()));
}

#[test]
fn clones_build_the_same_proxy() {
    let clone = config().clone();
    assert_eq!(clone, config());
    let built = clone.build(identity(), true, Ok::<SocketAddr, Error>(LISTEN)).unwrap().serve;
    assert_eq!(built.stacks, plan(true).stacks);
    assert_eq!(built.server, plan(true).server);
    assert_eq!(built.accept, plan(true).accept);
}
