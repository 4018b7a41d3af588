//! How the proxy's stacks are composed.
use crate::config::{Config, ConnectConfig, H2Settings, ProxyConfig};
use crate::identity::{Conditional, Name, ReasonForNoIdentity};
use crate::labels::{spec_trace_labels, trace_labels};
use crate::layer::{each, make, Base, Header, Layer, LockError, LogContext, Message};
use crate::layer::{Recognize, SpanKind, Stack, StackName, StackView, TargetMap};
use std::collections::HashMap;
use std::time::Duration;
use vstd::prelude::*;

verus! {

/// The round-trip time that a balancer assumes of an endpoint it has not used.
pub const EWMA_DEFAULT_RTT_MILLIS: u64 = 30;

/// The time over which a balancer forgets the latency of an endpoint.
pub const EWMA_DECAY_SECS: u64 = 10;

/// How many updates a balancer may leave unconsumed before its resolution waits.
pub const DISCOVER_BUFFER_CAPACITY: usize = 10;

/// What serves accepted connections.
#[derive(Debug, PartialEq, Eq)]
pub struct Server {
    /// The stack that streams are forwarded by that are not HTTP.
    pub tcp: StackName,
    /// The stack that HTTP requests are routed by.
    pub http: StackName,
    pub h2_settings: H2Settings,
    pub disable_protocol_detection_for_ports: Vec<u16>,
}

/// What accepts connections.
#[derive(Debug, PartialEq, Eq)]
pub struct Accept {
    /// The identity that TLS is terminated with.
    pub identity: Conditional<Name>,
    /// The ports whose connections are not searched for TLS.
    pub skip_ports: Vec<u16>,
}

/// All that serving the proxy is assembled from.
#[derive(Debug)]
pub struct Plan {
    /// The stacks, each after those that it refers to.
    pub stacks: Vec<Stack>,
    pub server: Server,
    pub accept: Accept,
    /// The labels of the spans that are exported.
    pub trace_labels: HashMap<String, String>,
}

/// A server, with its ports as a sequence.
#[verifier::ext_equal]
pub ghost struct ServerView {
    pub tcp: StackName,
    pub http: StackName,
    pub h2_settings: H2Settings,
    pub disable_protocol_detection_for_ports: Seq<u16>,
}

/// What accepts connections, with its ports as a sequence.
#[verifier::ext_equal]
pub ghost struct AcceptView {
    pub identity: Conditional<Name>,
    pub skip_ports: Seq<u16>,
}

/// A plan, with its collections as sequences and a map.
#[verifier::ext_equal]
pub ghost struct PlanView {
    pub stacks: Seq<StackView>,
    pub server: ServerView,
    pub accept: AcceptView,
    pub trace_labels: Map<Seq<char>, Seq<char>>,
}

impl View for Server {
    type V = ServerView;

    open spec fn view(&self) -> ServerView {
        ServerView {
            tcp: self.tcp,
            http: self.http,
            h2_settings: self.h2_settings,
            disable_protocol_detection_for_ports: self.disable_protocol_detection_for_ports@,
        }
    }
}

impl View for Accept {
    type V = AcceptView;

    open spec fn view(&self) -> AcceptView {
        AcceptView { identity: self.identity, skip_ports: self.skip_ports@ }
    }
}

impl View for Plan {
    type V = PlanView;

    open spec fn view(&self) -> PlanView {
        PlanView {
            stacks: self.stacks@.map_values(|stack: Stack| stack@),
            server: self.server@,
            accept: self.accept@,
            trace_labels: self.trace_labels.deep_view(),
        }
    }
}

pub open spec fn spec_trace_context(span_sink: bool, kind: SpanKind) -> Layer {
    Layer::TraceContext(
        if span_sink {
            Some(kind)
        } else {
            None
        },
    )
}

/// Exports spans, if there is a sink for them.
fn trace_context(span_sink: bool, kind: SpanKind) -> (layer: Layer)
    ensures
        layer == spec_trace_context(span_sink, kind),
{
    Layer::TraceContext(
        if span_sink {
            Some(kind)
        } else {
            None
        },
    )
}

pub open spec fn spec_cache<A>(proxy: ProxyConfig<A>) -> Layer {
    Layer::Cache { capacity: proxy.cache_capacity, max_idle_age: proxy.cache_max_idle_age }
}

/// Caches services within the limits that the proxy is configured with.
fn cache<A>(proxy: &ProxyConfig<A>) -> (layer: Layer)
    ensures
        layer == spec_cache(*proxy),
{
    Layer::Cache { capacity: proxy.cache_capacity, max_idle_age: proxy.cache_max_idle_age }
}

/// Establishes connections to remote peers, both to forward TCP streams and to
/// proxy HTTP requests.
pub open spec fn spec_tcp_connect(
    connect: ConnectConfig,
    local_identity: Conditional<Name>,
) -> StackView {
    StackView {
        name: StackName::TcpConnect,
        base: Base::Connect { keepalive: connect.keepalive },
        layers: seq![
            make(Layer::TlsClient(local_identity)),
            make(Layer::Timeout(connect.timeout)),
            make(Layer::TransportMetrics),
        ],
    }
}

fn tcp_connect(connect: &ConnectConfig, local_identity: Conditional<Name>) -> (stack: Stack)
    ensures
        stack@ == spec_tcp_connect(*connect, local_identity),
{
    Stack {
        name: StackName::TcpConnect,
        base: Base::Connect { keepalive: connect.keepalive },
        layers: vec![
            make(Layer::TlsClient(local_identity)),
            make(Layer::Timeout(connect.timeout)),
            make(Layer::TransportMetrics),
        ],
    }
}

/// Forwards TCP streams that cannot be decoded as HTTP.
pub open spec fn spec_tcp_forward() -> StackView {
    StackView {
        name: StackName::TcpForward,
        base: Base::Stack(StackName::TcpConnect),
        layers: seq![make(Layer::MapTarget(TargetMap::Tcp)), make(Layer::TcpForward)],
    }
}

fn tcp_forward() -> (stack: Stack)
    ensures
        stack@ == spec_tcp_forward(),
{
    Stack {
        name: StackName::TcpForward,
        base: Base::Stack(StackName::TcpConnect),
        layers: vec![make(Layer::MapTarget(TargetMap::Tcp)), make(Layer::TcpForward)],
    }
}

/// Sends HTTP requests to an endpoint.
pub open spec fn spec_http_endpoint(connect: ConnectConfig, span_sink: bool) -> StackView {
    StackView {
        name: StackName::HttpEndpoint,
        base: Base::Stack(StackName::TcpConnect),
        layers: seq![
            make(Layer::HttpClient(connect.h2_settings)),
            make(Layer::Reconnect(connect.backoff)),
            make(Layer::Tap),
            make(Layer::EndpointMetrics),
            each(spec_trace_context(span_sink, SpanKind::Client)),
            each(Layer::StripHeader(Message::Response, Header::RemoteIp)),
            each(Layer::StripHeader(Message::Response, Header::ServerId)),
            each(Layer::StripHeader(Message::Request, Header::RequireId)),
            make(Layer::RequireIdentity),
            make(Layer::NormalizeUri),
            make(Layer::OrigProtoUpgrade),
            make(Layer::Log(LogContext::Endpoint)),
        ],
    }
}

fn http_endpoint(connect: &ConnectConfig, span_sink: bool) -> (stack: Stack)
    ensures
        stack@ == spec_http_endpoint(*connect, span_sink),
{
    Stack {
        name: StackName::HttpEndpoint,
        base: Base::Stack(StackName::TcpConnect),
        layers: vec![
            make(Layer::HttpClient(connect.h2_settings)),
            make(Layer::Reconnect(connect.backoff)),
            // Taps, metrics and tracing see requests as they are sent.
            make(Layer::Tap),
            make(Layer::EndpointMetrics),
            each(trace_context(span_sink, SpanKind::Client)),
            // The header that says which identity a client requires is read by
            // the check of that identity, and goes no further.
            each(Layer::StripHeader(Message::Response, Header::RemoteIp)),
            each(Layer::StripHeader(Message::Response, Header::ServerId)),
            each(Layer::StripHeader(Message::Request, Header::RequireId)),
            make(Layer::RequireIdentity),
            make(Layer::NormalizeUri),
            make(Layer::OrigProtoUpgrade),
            make(Layer::Log(LogContext::Endpoint)),
        ],
    }
}

/// Balances requests over the endpoints of each concrete target.
pub open spec fn spec_http_balancer_cache<A>(proxy: ProxyConfig<A>) -> StackView {
    StackView {
        name: StackName::HttpBalancerCache,
        base: Base::Stack(StackName::HttpEndpoint),
        layers: seq![
            each(Layer::BoxRequest),
            make(Layer::SpawnReady),
            make(
                Layer::Discover {
                    capacity: DISCOVER_BUFFER_CAPACITY,
                    max_idle_age: proxy.cache_max_idle_age,
                },
            ),
            each(
                Layer::Balance {
                    default_rtt_millis: EWMA_DEFAULT_RTT_MILLIS,
                    decay_secs: EWMA_DECAY_SECS,
                },
            ),
            make(Layer::Pending),
            each(Layer::Lock(LockError::Discovery)),
            make(spec_cache(proxy)),
            make(Layer::Log(LogContext::Balance)),
        ],
    }
}

fn http_balancer_cache<A>(proxy: &ProxyConfig<A>) -> (stack: Stack)
    ensures
        stack@ == spec_http_balancer_cache(*proxy),
{
    Stack {
        name: StackName::HttpBalancerCache,
        base: Base::Stack(StackName::HttpEndpoint),
        layers: vec![
            each(Layer::BoxRequest),
            make(Layer::SpawnReady),
            make(
                Layer::Discover {
                    capacity: DISCOVER_BUFFER_CAPACITY,
                    max_idle_age: proxy.cache_max_idle_age,
                },
            ),
            each(
                Layer::Balance {
                    default_rtt_millis: EWMA_DEFAULT_RTT_MILLIS,
                    decay_secs: EWMA_DECAY_SECS,
                },
            ),
            make(Layer::Pending),
            // Shares the balancer, so that discovery errors are propagated.
            each(Layer::Lock(LockError::Discovery)),
            make(cache(proxy)),
            make(Layer::Log(LogContext::Balance)),
        ],
    }
}

/// Caches clients that bypass discovery and balancing.
pub open spec fn spec_http_forward_cache<A>(proxy: ProxyConfig<A>) -> StackView {
    StackView {
        name: StackName::HttpForwardCache,
        base: Base::Stack(StackName::HttpEndpoint),
        layers: seq![
            each(Layer::BoxRequest),
            make(Layer::Pending),
            each(Layer::Lock(LockError::Opaque)),
            make(spec_cache(proxy)),
            make(Layer::Log(LogContext::Forward)),
            make(Layer::MapTarget(TargetMap::Forward)),
        ],
    }
}

fn http_forward_cache<A>(proxy: &ProxyConfig<A>) -> (stack: Stack)
    ensures
        stack@ == spec_http_forward_cache(*proxy),
{
    Stack {
        name: StackName::HttpForwardCache,
        base: Base::Stack(StackName::HttpEndpoint),
        layers: vec![
            each(Layer::BoxRequest),
            make(Layer::Pending),
            each(Layer::Lock(LockError::Opaque)),
            make(cache(proxy)),
            make(Layer::Log(LogContext::Forward)),
            make(Layer::MapTarget(TargetMap::Forward)),
        ],
    }
}

/// Forwards requests to the endpoint that the application selected, where there is
/// nothing to balance them over.
pub open spec fn spec_http_forward() -> StackView {
    StackView {
        name: StackName::HttpForward,
        base: Base::Stack(StackName::HttpForwardCache),
        layers: seq![
            each(Layer::BoxedHttpResponse),
        ],
    }
}

fn http_forward() -> (stack: Stack)
    ensures
        stack@ == spec_http_forward(),
{
    Stack {
        name: StackName::HttpForward,
        base: Base::Stack(StackName::HttpForwardCache),
        layers: vec![
            each(Layer::BoxedHttpResponse),
        ],
    }
}

/// Routes requests to concrete targets.
pub open spec fn spec_http_concrete() -> StackView {
    StackView {
        name: StackName::HttpConcrete,
        base: Base::Stack(StackName::HttpBalancerCache),
        layers: seq![
            make(Layer::MapTarget(TargetMap::Balance)),
            each(Layer::BoxedHttpResponse),
            make(Layer::MakeReady),
            make(Layer::FallbackIfRejected(StackName::HttpForward)),
        ],
    }
}

fn http_concrete() -> (stack: Stack)
    ensures
        stack@ == spec_http_concrete(),
{
    Stack {
        name: StackName::HttpConcrete,
        base: Base::Stack(StackName::HttpBalancerCache),
        layers: vec![
            make(Layer::MapTarget(TargetMap::Balance)),
            each(Layer::BoxedHttpResponse),
            make(Layer::MakeReady),
            // A target that cannot be resolved is the original destination.
            make(Layer::FallbackIfRejected(StackName::HttpForward)),
        ],
    }
}

/// Applies the configuration of a route to its requests.
pub open spec fn spec_http_profile_route_proxy() -> StackView {
    StackView {
        name: StackName::HttpProfileRouteProxy,
        base: Base::Proxies,
        layers: seq![
            make(Layer::Retry),
            make(Layer::RequestTimeout),
            make(Layer::RouteMetrics),
            make(Layer::Classify),
        ],
    }
}

fn http_profile_route_proxy() -> (stack: Stack)
    ensures
        stack@ == spec_http_profile_route_proxy(),
{
    Stack {
        name: StackName::HttpProfileRouteProxy,
        base: Base::Proxies,
        layers: vec![
            make(Layer::Retry),
            make(Layer::RequestTimeout),
            make(Layer::RouteMetrics),
            make(Layer::Classify),
        ],
    }
}

/// Routes logical targets by their service profiles.
pub open spec fn spec_http_logical_profile_cache<A>(proxy: ProxyConfig<A>) -> StackView {
    StackView {
        name: StackName::HttpLogicalProfileCache,
        base: Base::Stack(StackName::HttpConcrete),
        layers: seq![
            each(Layer::BoxRequest),
            make(Layer::Profiles(StackName::HttpProfileRouteProxy)),
            each(Layer::MapTarget(TargetMap::Concrete)),
            make(Layer::Pending),
            each(Layer::Lock(LockError::Discovery)),
            make(spec_cache(proxy)),
            make(Layer::Log(LogContext::Profile)),
            make(Layer::Router(Recognize::ProfilePerTarget)),
        ],
    }
}

fn http_logical_profile_cache<A>(proxy: &ProxyConfig<A>) -> (stack: Stack)
    ensures
        stack@ == spec_http_logical_profile_cache(*proxy),
{
    Stack {
        name: StackName::HttpLogicalProfileCache,
        base: Base::Stack(StackName::HttpConcrete),
        layers: vec![
            each(Layer::BoxRequest),
            make(Layer::Profiles(StackName::HttpProfileRouteProxy)),
            // The logical target is the concrete one, unless the profile overrides it.
            each(Layer::MapTarget(TargetMap::Concrete)),
            make(Layer::Pending),
            each(Layer::Lock(LockError::Discovery)),
            make(cache(proxy)),
            make(Layer::Log(LogContext::Profile)),
            // Profiles are shared even as the type of request varies.
            make(Layer::Router(Recognize::ProfilePerTarget)),
        ],
    }
}

/// Caches the refinement of relative names to canonical ones: `foo` and `foo.ns` are
/// `foo.ns.svc.cluster.local`.
pub open spec fn spec_dns_refine_cache<A>(proxy: ProxyConfig<A>) -> StackView {
    StackView {
        name: StackName::DnsRefineCache,
        base: Base::DnsRefine,
        layers: seq![
            each(Layer::Lock(LockError::Opaque)),
            make(spec_cache(proxy)),
            make(Layer::Log(LogContext::Canonicalize)),
            make(Layer::MakeResponse),
            make(Layer::Oneshot),
        ],
    }
}

fn dns_refine_cache<A>(proxy: &ProxyConfig<A>) -> (stack: Stack)
    ensures
        stack@ == spec_dns_refine_cache(*proxy),
{
    Stack {
        name: StackName::DnsRefineCache,
        base: Base::DnsRefine,
        layers: vec![
            each(Layer::Lock(LockError::Opaque)),
            make(cache(proxy)),
            make(Layer::Log(LogContext::Canonicalize)),
            make(Layer::MakeResponse),
            // The cache is not locked while readiness is polled.
            make(Layer::Oneshot),
        ],
    }
}

/// Routes logical targets that have no service profile.
pub open spec fn spec_http_logical_concrete() -> StackView {
    StackView {
        name: StackName::HttpLogicalConcrete,
        base: Base::Stack(StackName::HttpConcrete),
        layers: seq![
            make(Layer::MapTarget(TargetMap::Concrete)),
            each(Layer::BoxedHttpResponse),
            each(Layer::BoxedHttpRequest),
        ],
    }
}

fn http_logical_concrete() -> (stack: Stack)
    ensures
        stack@ == spec_http_logical_concrete(),
{
    Stack {
        name: StackName::HttpLogicalConcrete,
        base: Base::Stack(StackName::HttpConcrete),
        layers: vec![
            make(Layer::MapTarget(TargetMap::Concrete)),
            each(Layer::BoxedHttpResponse),
            each(Layer::BoxedHttpRequest),
        ],
    }
}

/// Routes requests to their logical targets.
pub open spec fn spec_http_logical_router(canonicalize_timeout: Duration) -> StackView {
    StackView {
        name: StackName::HttpLogicalRouter,
        base: Base::Stack(StackName::HttpLogicalProfileCache),
        layers: seq![
            each(Layer::BoxedHttpResponse),
            make(Layer::MakeReady),
            make(Layer::FallbackIfRejected(StackName::HttpLogicalConcrete)),
            make(Layer::HeaderFromTarget(Header::CanonicalDst)),
            make(
                Layer::Canonicalize {
                    refine: StackName::DnsRefineCache,
                    timeout: canonicalize_timeout,
                },
            ),
            each(Layer::StripHeader(Message::Request, Header::ClientId)),
            each(Layer::StripHeader(Message::Request, Header::DstOverride)),
            make(Layer::Log(LogContext::Logical)),
        ],
    }
}

fn http_logical_router(canonicalize_timeout: Duration) -> (stack: Stack)
    ensures
        stack@ == spec_http_logical_router(canonicalize_timeout),
{
    Stack {
        name: StackName::HttpLogicalRouter,
        base: Base::Stack(StackName::HttpLogicalProfileCache),
        layers: vec![
            each(Layer::BoxedHttpResponse),
            make(Layer::MakeReady),
            make(Layer::FallbackIfRejected(StackName::HttpLogicalConcrete)),
            // Every request says what its canonical destination is.
            make(Layer::HeaderFromTarget(Header::CanonicalDst)),
            make(
                Layer::Canonicalize {
                    refine: StackName::DnsRefineCache,
                    timeout: canonicalize_timeout,
                },
            ),
            // Headers that the proxy itself may set are not taken from the application.
            each(Layer::StripHeader(Message::Request, Header::ClientId)),
            each(Layer::StripHeader(Message::Request, Header::DstOverride)),
            make(Layer::Log(LogContext::Logical)),
        ],
    }
}

/// Serves the requests of a connection.
pub open spec fn spec_http_server<A>(proxy: ProxyConfig<A>, span_sink: bool) -> StackView {
    StackView {
        name: StackName::HttpServer,
        base: Base::Stack(StackName::HttpLogicalRouter),
        layers: seq![
            make(Layer::MakeReady),
            make(Layer::Timeout(proxy.service_acquisition_timeout)),
            make(Layer::Router(Recognize::LogicalPerRequest)),
            make(Layer::InsertTarget),
            each(Layer::Oneshot),
            each(Layer::ConcurrencyLimit(proxy.max_in_flight_requests)),
            each(Layer::LoadShed),
            each(Layer::Errors),
            each(spec_trace_context(span_sink, SpanKind::Server)),
            each(Layer::HandleTime),
            make(Layer::Log(LogContext::Source)),
        ],
    }
}

fn http_server<A>(proxy: &ProxyConfig<A>, span_sink: bool) -> (stack: Stack)
    ensures
        stack@ == spec_http_server(*proxy, span_sink),
{
    Stack {
        name: StackName::HttpServer,
        base: Base::Stack(StackName::HttpLogicalRouter),
        layers: vec![
            make(Layer::MakeReady),
            make(Layer::Timeout(proxy.service_acquisition_timeout)),
            make(Layer::Router(Recognize::LogicalPerRequest)),
            make(Layer::InsertTarget),
            // Load is not shed because the inner service is in use.
            each(Layer::Oneshot),
            each(Layer::ConcurrencyLimit(proxy.max_in_flight_requests)),
            // Load is shed while too many requests are in flight.
            each(Layer::LoadShed),
            each(Layer::Errors),
            each(trace_context(span_sink, SpanKind::Server)),
            each(Layer::HandleTime),
            make(Layer::Log(LogContext::Source)),
        ],
    }
}

/// The stacks of the proxy, in the order in which they are assembled.
pub open spec fn spec_stacks<A>(
    config: Config<A>,
    local_identity: Conditional<Name>,
    span_sink: bool,
) -> Seq<StackView> {
    seq![
        spec_tcp_connect(config.proxy.connect, local_identity),
        spec_tcp_forward(),
        spec_http_endpoint(config.proxy.connect, span_sink),
        spec_http_balancer_cache(config.proxy),
        spec_http_forward_cache(config.proxy),
        spec_http_forward(),
        spec_http_concrete(),
        spec_http_profile_route_proxy(),
        spec_http_logical_profile_cache(config.proxy),
        spec_dns_refine_cache(config.proxy),
        spec_http_logical_concrete(),
        spec_http_logical_router(config.canonicalize_timeout),
        spec_http_server(config.proxy, span_sink),
    ]
}

/// What the proxy is to be assembled from.
pub open spec fn spec_plan<A>(
    config: Config<A>,
    local_identity: Conditional<Name>,
    span_sink: bool,
) -> PlanView {
    PlanView {
        stacks: spec_stacks(config, local_identity, span_sink),
        server: ServerView {
            tcp: StackName::TcpForward,
            http: StackName::HttpServer,
            h2_settings: config.proxy.server.h2_settings,
            disable_protocol_detection_for_ports:
                config.proxy.disable_protocol_detection_for_ports@,
        },
        // The local application does not establish mTLS with the proxy.
        accept: AcceptView {
            identity: Conditional::NoIdentity(ReasonForNoIdentity::Loopback),
            skip_ports: config.proxy.disable_protocol_detection_for_ports@,
        },
        trace_labels: spec_trace_labels(),
    }
}

/// Plans what the proxy is to be assembled from.
///
/// `local_identity` is what connections are established as, and `span_sink` is
/// whether there is a sink for spans.
pub(crate) fn plan<A>(
    config: Config<A>,
    local_identity: Conditional<Name>,
    span_sink: bool,
) -> (plan: Plan)
    ensures
        plan@ == spec_plan(config, local_identity, span_sink),
{
    let Config { proxy, canonicalize_timeout } = config;
    let stacks = vec![
        tcp_connect(&proxy.connect, local_identity),
        tcp_forward(),
        http_endpoint(&proxy.connect, span_sink),
        http_balancer_cache(&proxy),
        http_forward_cache(&proxy),
        http_forward(),
        http_concrete(),
        http_profile_route_proxy(),
        http_logical_profile_cache(&proxy),
        dns_refine_cache(&proxy),
        http_logical_concrete(),
        http_logical_router(canonicalize_timeout),
        http_server(&proxy, span_sink),
    ];
    let server = Server {
        tcp: StackName::TcpForward,
        http: StackName::HttpServer,
        h2_settings: proxy.server.h2_settings,
        disable_protocol_detection_for_ports: proxy.disable_protocol_detection_for_ports.clone(),
    };
    let accept = Accept {
        identity: Conditional::NoIdentity(ReasonForNoIdentity::Loopback),
        skip_ports: proxy.disable_protocol_detection_for_ports,
    };
    let plan = Plan { stacks, server, accept, trace_labels: trace_labels() };
    assert(plan@.stacks =~= spec_stacks(config, local_identity, span_sink));
    assert(plan.server.disable_protocol_detection_for_ports@
        =~= config.proxy.disable_protocol_detection_for_ports@);
    plan
}

} // verus!
