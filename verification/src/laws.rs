//! What holds of the proxy as a whole.
use crate::config::Config;
use crate::discovery::{DiscoveryError, Error};
use crate::endpoint::{spec_balance_target, spec_forward_target};
use crate::endpoint::{Concrete, HttpEndpoint, Logical, Meta, Target};
use crate::identity::{Conditional, Name, ReasonForNoIdentity};
use crate::layer::{Base, Header, Layer, LockError, LogContext, Message, Push, Recognize};
use crate::layer::{Scope, SpanKind, StackName, StackView, TargetMap};
use crate::plan::{spec_http_balancer_cache, spec_http_concrete};
use crate::plan::{spec_http_endpoint, spec_http_forward, spec_http_forward_cache};
use crate::plan::{spec_http_logical_concrete, spec_http_logical_profile_cache};
use crate::plan::{spec_http_logical_router, spec_http_profile_route_proxy, spec_http_server};
use crate::plan::{spec_plan, spec_stacks};
use crate::plan::{spec_tcp_connect, spec_tcp_forward, spec_trace_context, DISCOVER_BUFFER_CAPACITY};
use crate::plan::{EWMA_DECAY_SECS, EWMA_DEFAULT_RTT_MILLIS};
use crate::route::{asked_under, entered, entered_alone, entered_in_parts, fallback_index};
use crate::route::{falls_back, falls_back_at, meets, meets_before, met_before};
use crate::route::met_before_on_a_part;
use crate::route::{or_addr, path, position, reached, reached_through_parts, Asked, Lookup};
use crate::target::AnyTarget;
use vstd::prelude::*;
use vstd::std_specs::convert::FromSpec;

verus! {

/// Whether a layer uses the stack of a given name.
pub open spec fn uses(layer: Layer, name: StackName) -> bool {
    match layer {
        Layer::FallbackIfRejected(stack) => stack == name,
        Layer::Profiles(stack) => stack == name,
        Layer::Canonicalize { refine, .. } => refine == name,
        _ => false,
    }
}

/// Whether a stack is built on the stack of a given name, or has a layer that uses
/// it.
pub open spec fn refers_to(stack: StackView, name: StackName) -> bool {
    ||| stack.base == Base::Stack(name)
    ||| exists|k: int| 0 <= k < stack.layers.len() && uses(#[trigger] stack.layers[k].layer, name)
}

/// No two stacks have the same name.
pub proof fn names_are_distinct<A>(
    config: Config<A>,
    local_identity: Conditional<Name>,
    span_sink: bool,
    i: int,
    j: int,
)
    requires
        0 <= i < j < spec_stacks(config, local_identity, span_sink).len(),
    ensures
        spec_stacks(config, local_identity, span_sink)[i].name != spec_stacks(
            config,
            local_identity,
            span_sink,
        )[j].name,
{
}

/// A name finds the one stack that has it.
proof fn found<A>(
    config: Config<A>,
    local_identity: Conditional<Name>,
    span_sink: bool,
    i: int,
)
    requires
        0 <= i < spec_stacks(config, local_identity, span_sink).len(),
    ensures
        ({
            let stacks = spec_stacks(config, local_identity, span_sink);
            position(stacks, stacks[i].name) == i
        }),
{
    let stacks = spec_stacks(config, local_identity, span_sink);
    let p = position(stacks, stacks[i].name);
    assert(0 <= p < stacks.len() && stacks[p].name == stacks[i].name);
    if p < i {
        names_are_distinct(config, local_identity, span_sink, p, i);
    } else if i < p {
        names_are_distinct(config, local_identity, span_sink, i, p);
    }
}

/// The stacks can be assembled in their order: whatever a stack refers to comes
/// before it.
pub proof fn stacks_follow_what_they_refer_to<A>(
    config: Config<A>,
    local_identity: Conditional<Name>,
    span_sink: bool,
    i: int,
    name: StackName,
)
    requires
        0 <= i < spec_stacks(config, local_identity, span_sink).len(),
        refers_to(spec_stacks(config, local_identity, span_sink)[i], name),
    ensures
        ({
            let stacks = spec_stacks(config, local_identity, span_sink);
            &&& 0 <= position(stacks, name) < i
            &&& stacks[position(stacks, name)].name == name
        }),
{
    let stacks = spec_stacks(config, local_identity, span_sink);
    assert forall|j: int| 0 <= j < stacks.len() implies position(
        stacks,
        (#[trigger] stacks[j]).name,
    ) == j by {
        found(config, local_identity, span_sink, j);
    }
    assert(stacks[0].name == StackName::TcpConnect);
    assert(stacks[2].name == StackName::HttpEndpoint);
    assert(stacks[3].name == StackName::HttpBalancerCache);
    assert(stacks[4].name == StackName::HttpForwardCache);
    assert(stacks[5].name == StackName::HttpForward);
    assert(stacks[6].name == StackName::HttpConcrete);
    assert(stacks[7].name == StackName::HttpProfileRouteProxy);
    assert(stacks[8].name == StackName::HttpLogicalProfileCache);
    assert(stacks[9].name == StackName::DnsRefineCache);
    assert(stacks[10].name == StackName::HttpLogicalConcrete);
    assert(stacks[11].name == StackName::HttpLogicalRouter);
}

/// Every cache keeps to the limits that the proxy is configured with.
pub proof fn caches_keep_the_configured_limits<A>(
    config: Config<A>,
    local_identity: Conditional<Name>,
    span_sink: bool,
    i: int,
    k: int,
)
    requires
        0 <= i < spec_stacks(config, local_identity, span_sink).len(),
        0 <= k < spec_stacks(config, local_identity, span_sink)[i].layers.len(),
        spec_stacks(config, local_identity, span_sink)[i].layers[k].layer is Cache,
    ensures
        spec_stacks(config, local_identity, span_sink)[i].layers[k].layer == (Layer::Cache {
            capacity: config.proxy.cache_capacity,
            max_idle_age: config.proxy.cache_max_idle_age,
        }),
{
}

/// What recovers the original destinations of connections has no part in how
/// they are routed.
pub proof fn routing_ignores_orig_dst_addr<A, B>(
    config: Config<A>,
    orig_dst_addr: B,
    local_identity: Conditional<Name>,
    span_sink: bool,
)
    ensures
        spec_plan(config.spec_with_orig_dst_addr(orig_dst_addr), local_identity, span_sink)
            == spec_plan(config, local_identity, span_sink),
{
}

/// The layers between a connection and the HTTP requests that are sent on it.
pub open spec fn endpoint_path<A>(
    config: Config<A>,
    local_identity: Conditional<Name>,
    span_sink: bool,
) -> Seq<Push> {
    spec_tcp_connect(config.proxy.connect, local_identity).layers + spec_http_endpoint(
        config.proxy.connect,
        span_sink,
    ).layers
}

/// The layers that a request to a concrete target meets: those of a balancer, or
/// those that forward it if the target is rejected.
pub open spec fn concrete_path<A>(
    config: Config<A>,
    local_identity: Conditional<Name>,
    span_sink: bool,
    rejected: bool,
) -> Seq<Push> {
    let endpoint = endpoint_path(config, local_identity, span_sink);
    if rejected {
        endpoint + spec_http_forward_cache(config.proxy).layers + spec_http_forward().layers
    } else {
        endpoint + spec_http_balancer_cache(config.proxy).layers + spec_http_concrete().layers
    }
}

/// The layers of a profile, with those of the routes that it passes requests through.
pub open spec fn profile_path<A>(config: Config<A>) -> Seq<Push> {
    let profile = spec_http_logical_profile_cache(config.proxy).layers;
    profile.take(1) + spec_http_profile_route_proxy().layers + profile.skip(1)
}

/// The layers that a request to a logical target meets: those of its profile, or
/// those of its concrete target alone if the profile is rejected; and then those
/// that every request meets.
pub open spec fn logical_path<A>(
    config: Config<A>,
    local_identity: Conditional<Name>,
    span_sink: bool,
    profile_rejected: bool,
    target_rejected: bool,
) -> Seq<Push> {
    let concrete = concrete_path(config, local_identity, span_sink, target_rejected);
    let router = spec_http_logical_router(config.canonicalize_timeout).layers;
    if profile_rejected {
        concrete + spec_http_logical_concrete().layers + router.skip(3)
    } else {
        concrete + profile_path(config) + router
    }
}

/// The layers that an HTTP request meets.
pub open spec fn http_path<A>(
    config: Config<A>,
    local_identity: Conditional<Name>,
    span_sink: bool,
    profile_rejected: bool,
    target_rejected: bool,
) -> Seq<Push> {
    logical_path(config, local_identity, span_sink, profile_rejected, target_rejected)
        + spec_http_server(config.proxy, span_sink).layers
}

/// The layers that an HTTP request meets, by the plan of the proxy.
///
/// `rejected` are the stacks whose targets discovery rejects.
#[verifier::opaque]
pub open spec fn request_path<A>(
    config: Config<A>,
    local_identity: Conditional<Name>,
    span_sink: bool,
    rejected: Set<StackName>,
) -> Seq<Push> {
    let plan = spec_plan(config, local_identity, span_sink);
    path(plan.stacks, rejected, position(plan.stacks, plan.server.http))
}

/// A stack that is not the one of profiles passes requests through no other.
proof fn entered_plainly<A>(
    config: Config<A>,
    local_identity: Conditional<Name>,
    span_sink: bool,
    i: int,
)
    requires
        0 <= i < spec_stacks(config, local_identity, span_sink).len(),
        i != 8,
    ensures
        ({
            let stacks = spec_stacks(config, local_identity, span_sink);
            entered(stacks, i, stacks[i].layers) == stacks[i].layers
        }),
{
    let stacks = spec_stacks(config, local_identity, span_sink);
    entered_alone(stacks, i, stacks[i].layers);
}

/// The stack of profiles passes requests through the one of routes.
proof fn profiles_enter_routes<A>(
    config: Config<A>,
    local_identity: Conditional<Name>,
    span_sink: bool,
)
    ensures
        ({
            let stacks = spec_stacks(config, local_identity, span_sink);
            entered(stacks, 8, stacks[8].layers) == profile_path(config)
        }),
{
    let stacks = spec_stacks(config, local_identity, span_sink);
    let layers = stacks[8].layers;
    let profiles = seq![layers[1]];
    found(config, local_identity, span_sink, 7);
    assert(stacks[7].name == StackName::HttpProfileRouteProxy);
    assert(layers[1].layer == Layer::Profiles(StackName::HttpProfileRouteProxy));
    entered_alone(stacks, 8, layers.take(1));
    entered_alone(stacks, 8, layers.skip(2));
    entered_in_parts(stacks, 8, layers.take(1), profiles);
    entered_in_parts(stacks, 8, layers.take(1) + profiles, layers.skip(2));
    assert(layers.take(1) + profiles + layers.skip(2) =~= layers);
    assert(profiles.drop_last() =~= Seq::empty());
    reveal_with_fuel(entered, 2);
    assert(entered(stacks, 8, profiles) =~= stacks[7].layers + profiles);
    assert(profile_path(config) =~= layers.take(1) + (stacks[7].layers + profiles)
        + layers.skip(2));
}

/// A TCP stream that is not HTTP is forwarded over a connection of its own.
pub proof fn tcp_streams_are_forwarded<A>(
    config: Config<A>,
    local_identity: Conditional<Name>,
    span_sink: bool,
    rejected: Set<StackName>,
)
    ensures
        ({
            let plan = spec_plan(config, local_identity, span_sink);
            path(plan.stacks, rejected, position(plan.stacks, plan.server.tcp))
                == spec_tcp_connect(config.proxy.connect, local_identity).layers
                + spec_tcp_forward().layers
        }),
{
    let stacks = spec_stacks(config, local_identity, span_sink);
    found(config, local_identity, span_sink, 0);
    found(config, local_identity, span_sink, 1);
    entered_plainly(config, local_identity, span_sink, 0);
    entered_plainly(config, local_identity, span_sink, 1);
    reveal_with_fuel(path, 3);
    assert(!falls_back(stacks[0].layers));
    assert(!falls_back(stacks[1].layers));
}

/// An HTTP request is routed by the profile of its logical target, unless that is
/// rejected, and balanced over the endpoints of its concrete target, unless that
/// is rejected: then it goes to the endpoint that the application selected.
pub proof fn requests_are_routed<A>(
    config: Config<A>,
    local_identity: Conditional<Name>,
    span_sink: bool,
    rejected: Set<StackName>,
)
    ensures
        request_path(config, local_identity, span_sink, rejected) == http_path(
            config,
            local_identity,
            span_sink,
            rejected.contains(StackName::HttpLogicalRouter),
            rejected.contains(StackName::HttpConcrete),
        ),
{
    reveal(request_path);
    let stacks = spec_stacks(config, local_identity, span_sink);
    assert forall|j: int| 0 <= j < stacks.len() implies position(
        stacks,
        (#[trigger] stacks[j]).name,
    ) == j by {
        found(config, local_identity, span_sink, j);
    }
    assert forall|j: int| 0 <= j < stacks.len() && j != 8 implies entered(
        stacks,
        j,
        (#[trigger] stacks[j]).layers,
    ) == stacks[j].layers by {
        entered_plainly(config, local_identity, span_sink, j);
    }
    entered_alone(stacks, 6, stacks[6].layers.skip(4));
    entered_alone(stacks, 11, stacks[11].layers.skip(3));
    profiles_enter_routes(config, local_identity, span_sink);
    assert(path(stacks, rejected, 0) == stacks[0].layers);
    assert(path(stacks, rejected, 2) == endpoint_path(config, local_identity, span_sink));
    assert(path(stacks, rejected, 3) == path(stacks, rejected, 2) + stacks[3].layers);
    assert(path(stacks, rejected, 4) == path(stacks, rejected, 2) + stacks[4].layers);
    assert(path(stacks, rejected, 5) == path(stacks, rejected, 4) + stacks[5].layers);
    let at_concrete = rejected.contains(StackName::HttpConcrete);
    assert(falls_back_at(stacks[6].layers, 3));
    assert(falls_back_at(stacks[6].layers, fallback_index(stacks[6].layers)));
    assert(path(stacks, rejected, 6) == concrete_path(
        config,
        local_identity,
        span_sink,
        at_concrete,
    ));
    assert(path(stacks, rejected, 8) == path(stacks, rejected, 6) + profile_path(config));
    assert(path(stacks, rejected, 10) == path(stacks, rejected, 6) + stacks[10].layers);
    assert(falls_back_at(stacks[11].layers, 2));
    assert(falls_back_at(stacks[11].layers, fallback_index(stacks[11].layers)));
    assert(path(stacks, rejected, 11) == logical_path(
        config,
        local_identity,
        span_sink,
        rejected.contains(StackName::HttpLogicalRouter),
        at_concrete,
    ));
    assert(path(stacks, rejected, 12) == path(stacks, rejected, 11) + stacks[12].layers);
}

/// The layers between an endpoint and a logical target.
spec fn middle_path<A>(
    config: Config<A>,
    profile_rejected: bool,
    target_rejected: bool,
) -> Seq<Push> {
    let concrete = if target_rejected {
        spec_http_forward_cache(config.proxy).layers + spec_http_forward().layers
    } else {
        spec_http_balancer_cache(config.proxy).layers + spec_http_concrete().layers
    };
    if profile_rejected {
        concrete + spec_http_logical_concrete().layers
    } else {
        concrete + profile_path(config) + spec_http_logical_router(
            config.canonicalize_timeout,
        ).layers.take(3)
    }
}

/// The layers that a request meets before it is routed to a logical target.
#[verifier::opaque]
spec fn edge_path<A>(config: Config<A>, span_sink: bool) -> Seq<Push> {
    spec_http_logical_router(config.canonicalize_timeout).layers.skip(3) + spec_http_server(
        config.proxy,
        span_sink,
    ).layers
}

/// Whether a layer has its place between an endpoint and a logical target.
spec fn is_middle(layer: Layer) -> bool {
    match layer {
        Layer::BoxRequest
        | Layer::BoxedHttpRequest
        | Layer::BoxedHttpResponse
        | Layer::SpawnReady
        | Layer::Discover { .. }
        | Layer::Balance { .. }
        | Layer::Pending
        | Layer::Lock(_)
        | Layer::Cache { .. }
        | Layer::Log(_)
        | Layer::MapTarget(_)
        | Layer::MakeReady
        | Layer::FallbackIfRejected(_)
        | Layer::Profiles(_)
        | Layer::Retry
        | Layer::RequestTimeout
        | Layer::RouteMetrics
        | Layer::Classify
        | Layer::Router(Recognize::ProfilePerTarget) => true,
        _ => false,
    }
}

/// The path of a request runs over the edge, the middle and the endpoint.
proof fn path_in_parts<A>(
    config: Config<A>,
    local_identity: Conditional<Name>,
    span_sink: bool,
    profile_rejected: bool,
    target_rejected: bool,
)
    ensures
        http_path(config, local_identity, span_sink, profile_rejected, target_rejected)
            == endpoint_path(config, local_identity, span_sink) + middle_path(
            config,
            profile_rejected,
            target_rejected,
        ) + edge_path(config, span_sink),
{
    reveal(edge_path);
    let router = spec_http_logical_router(config.canonicalize_timeout).layers;
    assert(router == router.take(3) + router.skip(3));
    assert(http_path(config, local_identity, span_sink, profile_rejected, target_rejected)
        =~= endpoint_path(config, local_identity, span_sink) + middle_path(
        config,
        profile_rejected,
        target_rejected,
    ) + edge_path(config, span_sink));
}

/// Each layer of the middle has its place there.
proof fn middle_is_middle<A>(config: Config<A>, profile_rejected: bool, target_rejected: bool)
    ensures
        forall|i: int|
            0 <= i < middle_path(config, profile_rejected, target_rejected).len() ==> is_middle(
                (#[trigger] middle_path(config, profile_rejected, target_rejected)[i]).layer,
            ),
{
    let balancer = spec_http_balancer_cache(config.proxy).layers;
    let concrete = spec_http_concrete().layers;
    let profile = profile_path(config);
    let router = spec_http_logical_router(config.canonicalize_timeout).layers.take(3);
    assert(forall|i: int| 0 <= i < balancer.len() ==> is_middle((#[trigger] balancer[i]).layer));
    assert(forall|i: int| 0 <= i < concrete.len() ==> is_middle((#[trigger] concrete[i]).layer));
    assert(forall|i: int| 0 <= i < profile.len() ==> is_middle((#[trigger] profile[i]).layer));
    assert(forall|i: int| 0 <= i < router.len() ==> is_middle((#[trigger] router[i]).layer));
}

/// Where on the path of a request a layer is met that is met but once: counted from
/// the connection up to a hundred, and from where the request has been routed to
/// its logical target from there on.
spec fn place(layer: Layer) -> int {
    match layer {
        Layer::TlsClient(_) => 0,
        Layer::TransportMetrics => 2,
        Layer::HttpClient(_) => 3,
        Layer::Reconnect(_) => 4,
        Layer::Tap => 5,
        Layer::EndpointMetrics => 6,
        Layer::StripHeader(Message::Response, Header::RemoteIp) => 8,
        Layer::StripHeader(Message::Response, Header::ServerId) => 9,
        Layer::StripHeader(Message::Request, Header::RequireId) => 10,
        Layer::RequireIdentity => 11,
        Layer::NormalizeUri => 12,
        Layer::OrigProtoUpgrade => 13,
        Layer::HeaderFromTarget(_) => 100,
        Layer::Canonicalize { .. } => 101,
        Layer::StripHeader(Message::Request, Header::ClientId) => 102,
        Layer::StripHeader(Message::Request, Header::DstOverride) => 103,
        Layer::Router(Recognize::LogicalPerRequest) => 107,
        Layer::InsertTarget => 108,
        Layer::Oneshot => 109,
        Layer::ConcurrencyLimit(_) => 110,
        Layer::LoadShed => 111,
        Layer::Errors => 112,
        Layer::HandleTime => 114,
        _ => -1,
    }
}

/// Whether a layer whose place is `p` is met at `j`, where the request has been
/// routed to its logical target at `n`.
spec fn in_place(p: int, j: int, n: int) -> bool {
    p == -1 || (p < 100 && p == j) || (p >= 100 && p == 100 + (j - n))
}

/// A layer that has its place is met after any that was pushed later.
proof fn placed_before(layers: Seq<Push>, n: int, i: int, j: int)
    requires
        0 <= j < i < layers.len(),
        place(layers[j].layer) != -1,
        forall|k: int|
            0 <= k < layers.len() ==> in_place(place((#[trigger] layers[k]).layer), k, n),
    ensures
        meets_before(layers, layers[i].layer, layers[j].layer),
{
    reveal(meets_before);
    assert(in_place(place(layers[j].layer), j, n));
}

proof fn endpoint_places<A>(config: Config<A>, local_identity: Conditional<Name>, span_sink: bool)
    ensures
        ({
            let endpoint = endpoint_path(config, local_identity, span_sink);
            &&& endpoint.len() == 15
            &&& forall|k: int|
                0 <= k < 15 ==> place((#[trigger] endpoint[k]).layer) == -1 || place(
                    endpoint[k].layer,
                ) == k
        }),
{
}

proof fn edge_places<A>(config: Config<A>, span_sink: bool)
    ensures
        ({
            let edge = edge_path(config, span_sink);
            &&& edge.len() == 16
            &&& forall|k: int|
                0 <= k < 16 ==> place((#[trigger] edge[k]).layer) == -1 || place(edge[k].layer)
                    == 100 + k
        }),
{
    reveal(edge_path);
}

/// The layers at the edge that requests are changed or refused by.
proof fn edge_layers<A>(config: Config<A>, span_sink: bool)
    ensures
        ({
            let edge = edge_path(config, span_sink);
            &&& edge[0].layer == Layer::HeaderFromTarget(Header::CanonicalDst)
            &&& edge[1].layer == (Layer::Canonicalize {
                refine: StackName::DnsRefineCache,
                timeout: config.canonicalize_timeout,
            })
            &&& edge[2].layer == Layer::StripHeader(Message::Request, Header::ClientId)
            &&& edge[3].layer == Layer::StripHeader(Message::Request, Header::DstOverride)
            &&& edge[6].layer == Layer::Timeout(config.proxy.service_acquisition_timeout)
            &&& edge[7].layer == Layer::Router(Recognize::LogicalPerRequest)
            &&& edge[8].layer == Layer::InsertTarget
            &&& edge[9].layer == Layer::Oneshot
            &&& edge[10].layer == Layer::ConcurrencyLimit(config.proxy.max_in_flight_requests)
            &&& edge[11].layer == Layer::LoadShed
            &&& edge[12].layer == Layer::Errors
            &&& edge[13].layer == spec_trace_context(span_sink, SpanKind::Server)
            &&& edge[14].layer == Layer::HandleTime
        }),
{
    reveal(edge_path);
}

/// A request meets the layers in their places, and each of the others where it
/// belongs.
proof fn path_places<A>(
    config: Config<A>,
    local_identity: Conditional<Name>,
    span_sink: bool,
    rejected: Set<StackName>,
)
    ensures
        ({
            let layers = request_path(config, local_identity, span_sink, rejected);
            let n = layers.len() - 16;
            &&& n >= 15
            &&& forall|k: int|
                0 <= k < 15 ==> layers[k] == #[trigger] endpoint_path(
                    config,
                    local_identity,
                    span_sink,
                )[k]
            &&& forall|k: int|
                0 <= k < 16 ==> layers[n + k] == #[trigger] edge_path(config, span_sink)[k]
            &&& forall|j: int|
                0 <= j < layers.len() ==> in_place(place((#[trigger] layers[j]).layer), j, n)
        }),
{
    let profile_rejected = rejected.contains(StackName::HttpLogicalRouter);
    let target_rejected = rejected.contains(StackName::HttpConcrete);
    requests_are_routed(config, local_identity, span_sink, rejected);
    path_in_parts(config, local_identity, span_sink, profile_rejected, target_rejected);
    middle_is_middle(config, profile_rejected, target_rejected);
    endpoint_places(config, local_identity, span_sink);
    edge_places(config, span_sink);
    parts_places(
        endpoint_path(config, local_identity, span_sink),
        middle_path(config, profile_rejected, target_rejected),
        edge_path(config, span_sink),
    );
}

proof fn parts_places(endpoint: Seq<Push>, middle: Seq<Push>, edge: Seq<Push>)
    requires
        endpoint.len() == 15,
        edge.len() == 16,
        forall|k: int|
            0 <= k < 15 ==> place((#[trigger] endpoint[k]).layer) == -1 || place(endpoint[k].layer)
                == k,
        forall|k: int|
            0 <= k < 16 ==> place((#[trigger] edge[k]).layer) == -1 || place(edge[k].layer) == 100
                + k,
        forall|k: int| 0 <= k < middle.len() ==> is_middle((#[trigger] middle[k]).layer),
    ensures
        ({
            let layers = endpoint + middle + edge;
            let n = layers.len() - 16;
            &&& n >= 15
            &&& forall|k: int| 0 <= k < 15 ==> layers[k] == #[trigger] endpoint[k]
            &&& forall|k: int| 0 <= k < 16 ==> layers[n + k] == #[trigger] edge[k]
            &&& forall|j: int|
                0 <= j < layers.len() ==> in_place(place((#[trigger] layers[j]).layer), j, n)
        }),
{
    let layers = endpoint + middle + edge;
    let n = layers.len() - 16;
    assert forall|j: int| 0 <= j < layers.len() implies in_place(
        place((#[trigger] layers[j]).layer),
        j,
        n,
    ) by {
        if j < 15 {
            assert(layers[j] == endpoint[j]);
        } else if j < n {
            assert(layers[j] == middle[j - 15]);
        } else {
            assert(layers[j] == edge[j - n]);
        }
    }
}

/// No layer removes the header that says what a request's canonical destination is.
proof fn canonical_destinations_are_kept<A>(
    config: Config<A>,
    local_identity: Conditional<Name>,
    span_sink: bool,
    rejected: Set<StackName>,
)
    ensures
        !meets(
            request_path(config, local_identity, span_sink, rejected),
            Layer::StripHeader(Message::Request, Header::CanonicalDst),
        ),
{
    let strip = Layer::StripHeader(Message::Request, Header::CanonicalDst);
    let profile_rejected = rejected.contains(StackName::HttpLogicalRouter);
    let target_rejected = rejected.contains(StackName::HttpConcrete);
    requests_are_routed(config, local_identity, span_sink, rejected);
    path_in_parts(config, local_identity, span_sink, profile_rejected, target_rejected);
    middle_is_middle(config, profile_rejected, target_rejected);
    let endpoint = endpoint_path(config, local_identity, span_sink);
    let middle = middle_path(config, profile_rejected, target_rejected);
    let edge = edge_path(config, span_sink);
    assert(!meets(endpoint, strip));
    assert(!meets(middle, strip));
    assert(!meets(edge, strip)) by {
        reveal(edge_path);
    }
    meets_on_parts(endpoint, middle, strip);
    meets_on_parts(endpoint + middle, edge, strip);
}

/// The logical target of an HTTP request is recognized while the request still has
/// the header by which it asks for another destination. Then it loses that header
/// and the one that names a client, both of which the proxy itself may set. It is
/// given its canonical destination, and says so on its way to its peer: no layer
/// removes the header that it says so by.
pub proof fn requests_say_their_canonical_destination<A>(
    config: Config<A>,
    local_identity: Conditional<Name>,
    span_sink: bool,
    rejected: Set<StackName>,
)
    ensures
        ({
            let layers = request_path(config, local_identity, span_sink, rejected);
            let strip_client = Layer::StripHeader(Message::Request, Header::ClientId);
            let strip_override = Layer::StripHeader(Message::Request, Header::DstOverride);
            let canonicalize = Layer::Canonicalize {
                refine: StackName::DnsRefineCache,
                timeout: config.canonicalize_timeout,
            };
            let canonical = Layer::HeaderFromTarget(Header::CanonicalDst);
            let recognize = Layer::Router(Recognize::LogicalPerRequest);
            &&& meets_before(layers, recognize, strip_client)
            &&& meets_before(layers, recognize, strip_override)
            &&& meets_before(layers, strip_client, canonicalize)
            &&& meets_before(layers, strip_override, canonicalize)
            &&& meets_before(layers, canonicalize, canonical)
            &&& meets_before(layers, canonical, Layer::HttpClient(config.proxy.connect.h2_settings))
            &&& !meets(layers, Layer::StripHeader(Message::Request, Header::CanonicalDst))
        }),
{
    canonical_destinations_are_kept(config, local_identity, span_sink, rejected);
    edge_layers(config, span_sink);
    path_places(config, local_identity, span_sink, rejected);
    let layers = request_path(config, local_identity, span_sink, rejected);
    let n = layers.len() - 16;
    let edge = edge_path(config, span_sink);
    assert(layers[n] == edge[0] && layers[n + 1] == edge[1]);
    assert(layers[n + 2] == edge[2] && layers[n + 3] == edge[3]);
    assert(layers[3] == endpoint_path(config, local_identity, span_sink)[3]);
    assert(layers[n + 7] == edge[7]);
    placed_before(layers, n, n + 7, n + 2);
    placed_before(layers, n, n + 7, n + 3);
    placed_before(layers, n, n + 2, n + 1);
    placed_before(layers, n, n + 3, n + 1);
    placed_before(layers, n, n + 1, n);
    placed_before(layers, n, n, 3);
}

/// The identity that a client requires of its peer is checked before the header
/// that names it is removed, and that is before the request is sent.
pub proof fn required_identities_are_checked<A>(
    config: Config<A>,
    local_identity: Conditional<Name>,
    span_sink: bool,
    rejected: Set<StackName>,
)
    ensures
        ({
            let layers = request_path(config, local_identity, span_sink, rejected);
            let strip = Layer::StripHeader(Message::Request, Header::RequireId);
            &&& meets_before(layers, Layer::RequireIdentity, strip)
            &&& meets_before(layers, strip, Layer::HttpClient(config.proxy.connect.h2_settings))
        }),
{
    path_places(config, local_identity, span_sink, rejected);
    let layers = request_path(config, local_identity, span_sink, rejected);
    let endpoint = endpoint_path(config, local_identity, span_sink);
    assert(layers[3] == endpoint[3] && layers[10] == endpoint[10] && layers[11] == endpoint[11]);
    placed_before(layers, layers.len() - 16, 11, 10);
    placed_before(layers, layers.len() - 16, 10, 3);
}

/// Load is shed while too many requests are in flight, and not because the inner
/// service is in use; a response is synthesized for a request that is shed, which is
/// traced and timed like any other.
pub proof fn excess_load_is_shed<A>(
    config: Config<A>,
    local_identity: Conditional<Name>,
    span_sink: bool,
    rejected: Set<StackName>,
)
    ensures
        ({
            let layers = request_path(config, local_identity, span_sink, rejected);
            let limit = Layer::ConcurrencyLimit(config.proxy.max_in_flight_requests);
            let trace = spec_trace_context(span_sink, SpanKind::Server);
            &&& meets_before(layers, Layer::HandleTime, Layer::LoadShed)
            &&& meets_before(layers, trace, Layer::LoadShed)
            &&& meets_before(layers, Layer::Errors, Layer::LoadShed)
            &&& meets_before(layers, Layer::LoadShed, limit)
            &&& meets_before(layers, limit, Layer::Oneshot)
        }),
{
    edge_layers(config, span_sink);
    path_places(config, local_identity, span_sink, rejected);
    let layers = request_path(config, local_identity, span_sink, rejected);
    let n = layers.len() - 16;
    let edge = edge_path(config, span_sink);
    assert(layers[n + 9] == edge[9] && layers[n + 10] == edge[10]);
    assert(layers[n + 11] == edge[11] && layers[n + 12] == edge[12]);
    assert(layers[n + 13] == edge[13] && layers[n + 14] == edge[14]);
    placed_before(layers, n, n + 14, n + 11);
    placed_before(layers, n, n + 13, n + 11);
    placed_before(layers, n, n + 12, n + 11);
    placed_before(layers, n, n + 11, n + 10);
    placed_before(layers, n, n + 10, n + 9);
}

/// A request waits no longer for the service that handles it than the proxy is
/// configured to let it.
pub proof fn services_are_acquired_in_time<A>(
    config: Config<A>,
    local_identity: Conditional<Name>,
    span_sink: bool,
    rejected: Set<StackName>,
)
    ensures
        ({
            let layers = request_path(config, local_identity, span_sink, rejected);
            meets(layers, Layer::Timeout(config.proxy.service_acquisition_timeout))
        }),
{
    edge_layers(config, span_sink);
    path_places(config, local_identity, span_sink, rejected);
    let layers = request_path(config, local_identity, span_sink, rejected);
    assert(layers[layers.len() - 16 + 6] == edge_path(config, span_sink)[6]);
}

/// A request is upgraded before its URI is brought into its proper form, and that
/// is before it is sent.
pub proof fn requests_are_brought_into_form<A>(
    config: Config<A>,
    local_identity: Conditional<Name>,
    span_sink: bool,
    rejected: Set<StackName>,
)
    ensures
        ({
            let layers = request_path(config, local_identity, span_sink, rejected);
            &&& meets_before(layers, Layer::OrigProtoUpgrade, Layer::NormalizeUri)
            &&& meets_before(
                layers,
                Layer::NormalizeUri,
                Layer::HttpClient(config.proxy.connect.h2_settings),
            )
        }),
{
    path_places(config, local_identity, span_sink, rejected);
    let layers = request_path(config, local_identity, span_sink, rejected);
    let endpoint = endpoint_path(config, local_identity, span_sink);
    assert(layers[3] == endpoint[3] && layers[12] == endpoint[12] && layers[13] == endpoint[13]);
    placed_before(layers, layers.len() - 16, 13, 12);
    placed_before(layers, layers.len() - 16, 12, 3);
}

/// The client that sends a request is connected again, with the configured backoff,
/// when it fails. Its connection is counted, and is established within the configured
/// time and as the local identity.
pub proof fn failed_clients_are_connected_again<A>(
    config: Config<A>,
    local_identity: Conditional<Name>,
    span_sink: bool,
    rejected: Set<StackName>,
)
    ensures
        ({
            let layers = request_path(config, local_identity, span_sink, rejected);
            let reconnect = Layer::Reconnect(config.proxy.connect.backoff);
            let client = Layer::HttpClient(config.proxy.connect.h2_settings);
            let tls = Layer::TlsClient(local_identity);
            &&& meets_before(layers, reconnect, client)
            &&& meets_before(layers, client, Layer::TransportMetrics)
            &&& meets_before(layers, Layer::TransportMetrics, tls)
            &&& meets_before(layers, Layer::Timeout(config.proxy.connect.timeout), tls)
        }),
{
    path_places(config, local_identity, span_sink, rejected);
    let layers = request_path(config, local_identity, span_sink, rejected);
    let endpoint = endpoint_path(config, local_identity, span_sink);
    assert(layers[0] == endpoint[0] && layers[1] == endpoint[1] && layers[2] == endpoint[2]);
    assert(layers[3] == endpoint[3] && layers[4] == endpoint[4]);
    placed_before(layers, layers.len() - 16, 4, 3);
    placed_before(layers, layers.len() - 16, 3, 2);
    placed_before(layers, layers.len() - 16, 2, 0);
    placed_before(layers, layers.len() - 16, 1, 0);
}

/// Whether a push that handles requests one by one does so on each service.
spec fn handles_each_request(push: Push) -> bool {
    match push.layer {
        Layer::Oneshot
        | Layer::ConcurrencyLimit(_)
        | Layer::LoadShed
        | Layer::Errors
        | Layer::TraceContext(_)
        | Layer::HandleTime
        | Layer::StripHeader(_, _)
        | Layer::Lock(_)
        | Layer::Balance { .. } => push.scope == Scope::Service,
        _ => true,
    }
}

/// On the path of a request, what limits, sheds, answers, traces and times requests,
/// what strips their headers, and what shares and balances services does so on each
/// service, and so for each request.
pub proof fn requests_are_handled_one_by_one<A>(
    config: Config<A>,
    local_identity: Conditional<Name>,
    span_sink: bool,
    rejected: Set<StackName>,
    j: int,
)
    requires
        0 <= j < request_path(config, local_identity, span_sink, rejected).len(),
    ensures
        ({
            let push = request_path(config, local_identity, span_sink, rejected)[j];
            match push.layer {
                Layer::Oneshot
                | Layer::ConcurrencyLimit(_)
                | Layer::LoadShed
                | Layer::Errors
                | Layer::TraceContext(_)
                | Layer::HandleTime
                | Layer::StripHeader(_, _)
                | Layer::Lock(_)
                | Layer::Balance { .. } => push.scope == Scope::Service,
                _ => true,
            }
        }),
{
    let profile_rejected = rejected.contains(StackName::HttpLogicalRouter);
    let target_rejected = rejected.contains(StackName::HttpConcrete);
    requests_are_routed(config, local_identity, span_sink, rejected);
    path_in_parts(config, local_identity, span_sink, profile_rejected, target_rejected);
    let endpoint = endpoint_path(config, local_identity, span_sink);
    let middle = middle_path(config, profile_rejected, target_rejected);
    let edge = edge_path(config, span_sink);
    assert(forall|k: int| 0 <= k < endpoint.len() ==> handles_each_request(#[trigger] endpoint[k]));
    assert(forall|k: int| 0 <= k < edge.len() ==> handles_each_request(#[trigger] edge[k])) by {
        reveal(edge_path);
    }
    middle_handles_each_request(config, profile_rejected, target_rejected);
    let m = endpoint.len() as int;
    let n = m + middle.len();
    if j < m {
        assert(handles_each_request(endpoint[j]));
    } else if j < n {
        assert(handles_each_request(middle[j - m]));
    } else {
        assert(handles_each_request(edge[j - n]));
    }
}

proof fn middle_handles_each_request<A>(
    config: Config<A>,
    profile_rejected: bool,
    target_rejected: bool,
)
    ensures
        forall|k: int|
            0 <= k < middle_path(config, profile_rejected, target_rejected).len()
                ==> handles_each_request(
                #[trigger] middle_path(config, profile_rejected, target_rejected)[k],
            ),
{
    let balancer = spec_http_balancer_cache(config.proxy).layers;
    let concrete = spec_http_concrete().layers;
    let profile = profile_path(config);
    let router = spec_http_logical_router(config.canonicalize_timeout).layers.take(3);
    assert(forall|k: int| 0 <= k < balancer.len() ==> handles_each_request(#[trigger] balancer[k]));
    assert(forall|k: int| 0 <= k < concrete.len() ==> handles_each_request(#[trigger] concrete[k]));
    assert(forall|k: int| 0 <= k < profile.len() ==> handles_each_request(#[trigger] profile[k]));
    assert(forall|k: int| 0 <= k < router.len() ==> handles_each_request(#[trigger] router[k]));
}

/// The time that a request takes includes the answering of errors. The connection
/// that it was accepted on is added to it before it is tapped, and it is tapped and
/// counted as it is sent: without the header that names a required identity.
pub proof fn requests_are_observed_as_they_are_sent<A>(
    config: Config<A>,
    local_identity: Conditional<Name>,
    span_sink: bool,
    rejected: Set<StackName>,
)
    ensures
        ({
            let layers = request_path(config, local_identity, span_sink, rejected);
            let strip = Layer::StripHeader(Message::Request, Header::RequireId);
            let client = Layer::HttpClient(config.proxy.connect.h2_settings);
            &&& meets_before(layers, Layer::HandleTime, Layer::Errors)
            &&& meets_before(layers, Layer::InsertTarget, Layer::Tap)
            &&& meets_before(layers, strip, Layer::EndpointMetrics)
            &&& meets_before(layers, strip, Layer::Tap)
            &&& meets_before(layers, Layer::EndpointMetrics, client)
            &&& meets_before(layers, Layer::Tap, client)
        }),
{
    edge_layers(config, span_sink);
    path_places(config, local_identity, span_sink, rejected);
    let layers = request_path(config, local_identity, span_sink, rejected);
    let n = layers.len() - 16;
    let edge = edge_path(config, span_sink);
    let endpoint = endpoint_path(config, local_identity, span_sink);
    assert(layers[n + 8] == edge[8] && layers[n + 12] == edge[12] && layers[n + 14] == edge[14]);
    assert(layers[3] == endpoint[3] && layers[5] == endpoint[5]);
    assert(layers[6] == endpoint[6] && layers[10] == endpoint[10]);
    placed_before(layers, n, n + 14, n + 12);
    placed_before(layers, n, n + 8, 5);
    placed_before(layers, n, 10, 6);
    placed_before(layers, n, 10, 5);
    placed_before(layers, n, 6, 3);
    placed_before(layers, n, 5, 3);
}

/// The cache of canonical names is locked only once there is a name to refine, and
/// not while it is asked whether it is ready.
pub proof fn refinement_locks_no_idle_cache<A>(
    config: Config<A>,
    local_identity: Conditional<Name>,
    span_sink: bool,
    rejected: Set<StackName>,
)
    ensures
        ({
            let stacks = spec_stacks(config, local_identity, span_sink);
            let layers = path(stacks, rejected, position(stacks, StackName::DnsRefineCache));
            meets_before(layers, Layer::Oneshot, Layer::Lock(LockError::Opaque))
        }),
{
    reveal(meets_before);
    let stacks = spec_stacks(config, local_identity, span_sink);
    found(config, local_identity, span_sink, 9);
    assert(!falls_back(stacks[9].layers));
    let layers = stacks[9].layers;
    entered_plainly(config, local_identity, span_sink, 9);
    assert(path(stacks, rejected, 9) == layers);
    assert(layers[0].layer == Layer::Lock(LockError::Opaque));
    assert(layers[4].layer == Layer::Oneshot);
}

/// What a response says of its peer's address and identity is removed from it.
pub proof fn responses_lose_what_they_say_of_peers<A>(
    config: Config<A>,
    local_identity: Conditional<Name>,
    span_sink: bool,
    rejected: Set<StackName>,
)
    ensures
        ({
            let layers = request_path(config, local_identity, span_sink, rejected);
            &&& meets(layers, Layer::StripHeader(Message::Response, Header::RemoteIp))
            &&& meets(layers, Layer::StripHeader(Message::Response, Header::ServerId))
        }),
{
    path_places(config, local_identity, span_sink, rejected);
    let layers = request_path(config, local_identity, span_sink, rejected);
    let endpoint = endpoint_path(config, local_identity, span_sink);
    assert(layers[8] == endpoint[8] && layers[9] == endpoint[9]);
}

/// Connections to peers are established as the local identity, within the time
/// that the proxy is configured with, whether they carry HTTP requests or not.
pub proof fn connections_are_established_as_the_local_identity<A>(
    config: Config<A>,
    local_identity: Conditional<Name>,
    span_sink: bool,
    rejected: Set<StackName>,
)
    ensures
        ({
            let plan = spec_plan(config, local_identity, span_sink);
            let tcp = path(plan.stacks, rejected, position(plan.stacks, plan.server.tcp));
            let http = request_path(config, local_identity, span_sink, rejected);
            &&& tcp.len() >= 2
            &&& tcp[0].layer == Layer::TlsClient(local_identity)
            &&& tcp[1].layer == Layer::Timeout(config.proxy.connect.timeout)
            &&& http.len() >= 2
            &&& http[0].layer == Layer::TlsClient(local_identity)
            &&& http[1].layer == Layer::Timeout(config.proxy.connect.timeout)
            &&& forall|j: int| 0 < j < http.len() ==> !((#[trigger] http[j]).layer is TlsClient)
            &&& forall|j: int| 0 < j < tcp.len() ==> !((#[trigger] tcp[j]).layer is TlsClient)
        }),
{
    tcp_streams_are_forwarded(config, local_identity, span_sink, rejected);
    path_places(config, local_identity, span_sink, rejected);
    let http = request_path(config, local_identity, span_sink, rejected);
    let endpoint = endpoint_path(config, local_identity, span_sink);
    assert(http[0] == endpoint[0] && http[1] == endpoint[1]);
}

/// The local application does not establish mTLS with the proxy, whatever the
/// proxy's own identity is.
pub proof fn accepted_connections_have_no_identity<A>(
    config: Config<A>,
    local_identity: Conditional<Name>,
    span_sink: bool,
)
    ensures
        spec_plan(config, local_identity, span_sink).accept.identity
            == Conditional::<Name>::NoIdentity(ReasonForNoIdentity::Loopback),
{
}

/// Connections on the same ports are spared the search for TLS and the detection
/// of their protocol.
pub proof fn ports_are_skipped_alike<A>(
    config: Config<A>,
    local_identity: Conditional<Name>,
    span_sink: bool,
)
    ensures
        ({
            let plan = spec_plan(config, local_identity, span_sink);
            plan.accept.skip_ports == plan.server.disable_protocol_detection_for_ports
        }),
{
}

/// Wherever spans are traced, they are exported if and only if there is a sink for
/// them.
pub proof fn spans_need_a_sink<A>(
    config: Config<A>,
    local_identity: Conditional<Name>,
    span_sink: bool,
    i: int,
    k: int,
)
    requires
        0 <= i < spec_stacks(config, local_identity, span_sink).len(),
        0 <= k < spec_stacks(config, local_identity, span_sink)[i].layers.len(),
        spec_stacks(config, local_identity, span_sink)[i].layers[k].layer is TraceContext,
    ensures
        spec_stacks(
            config,
            local_identity,
            span_sink,
        )[i].layers[k].layer->TraceContext_0 is Some == span_sink,
{
}

/// Every request is traced as the proxy serves it and as the proxy sends it, so that
/// both spans are exported if and only if there is a sink for them.
pub proof fn requests_are_traced<A>(
    config: Config<A>,
    local_identity: Conditional<Name>,
    span_sink: bool,
    rejected: Set<StackName>,
)
    ensures
        ({
            let layers = request_path(config, local_identity, span_sink, rejected);
            &&& meets(layers, spec_trace_context(span_sink, SpanKind::Client))
            &&& meets(layers, spec_trace_context(span_sink, SpanKind::Server))
        }),
{
    edge_layers(config, span_sink);
    path_places(config, local_identity, span_sink, rejected);
    let layers = request_path(config, local_identity, span_sink, rejected);
    assert(layers[7] == endpoint_path(config, local_identity, span_sink)[7]);
    assert(layers[layers.len() - 16 + 13] == edge_path(config, span_sink)[13]);
}

/// A request meets what it meets on either part of its way.
proof fn meets_on_parts(below: Seq<Push>, above: Seq<Push>, layer: Layer)
    ensures
        meets(below + above, layer) == (meets(below, layer) || meets(above, layer)),
{
    let layers = below + above;
    if meets(below, layer) {
        let i = choose|i: int| 0 <= i < below.len() && (#[trigger] below[i]).layer == layer;
        assert(layers[i].layer == layer);
    }
    if meets(above, layer) {
        let i = choose|i: int| 0 <= i < above.len() && (#[trigger] above[i]).layer == layer;
        assert(layers[below.len() + i].layer == layer);
    }
}

/// Whether a layer decides what a request is routed to.
spec fn is_route(layer: Layer) -> bool {
    match layer {
        Layer::MapTarget(TargetMap::Forward)
        | Layer::MapTarget(TargetMap::Balance)
        | Layer::Discover { .. }
        | Layer::Balance { .. }
        | Layer::Profiles(_) => true,
        _ => false,
    }
}

/// Neither the edge nor the endpoint decides what a request is routed to.
proof fn routed_in_the_middle<A>(
    config: Config<A>,
    local_identity: Conditional<Name>,
    span_sink: bool,
    rejected: Set<StackName>,
    layer: Layer,
)
    requires
        is_route(layer),
    ensures
        meets(request_path(config, local_identity, span_sink, rejected), layer) == meets(
            middle_path(
                config,
                rejected.contains(StackName::HttpLogicalRouter),
                rejected.contains(StackName::HttpConcrete),
            ),
            layer,
        ),
{
    let profile_rejected = rejected.contains(StackName::HttpLogicalRouter);
    let target_rejected = rejected.contains(StackName::HttpConcrete);
    requests_are_routed(config, local_identity, span_sink, rejected);
    path_in_parts(config, local_identity, span_sink, profile_rejected, target_rejected);
    let endpoint = endpoint_path(config, local_identity, span_sink);
    let middle = middle_path(config, profile_rejected, target_rejected);
    let edge = edge_path(config, span_sink);
    assert(!meets(endpoint, layer));
    assert(!meets(edge, layer)) by {
        reveal(edge_path);
    }
    meets_on_parts(endpoint, middle, layer);
    meets_on_parts(endpoint + middle, edge, layer);
}

/// Whether a layer decides where a request is routed, given what is rejected.
spec fn is_routed_by<A>(
    config: Config<A>,
    profile_rejected: bool,
    target_rejected: bool,
    layer: Layer,
) -> bool {
    ||| target_rejected && layer == Layer::MapTarget(TargetMap::Forward)
    ||| !target_rejected && layer == Layer::MapTarget(TargetMap::Balance)
    ||| !target_rejected && layer == Layer::Discover {
        capacity: DISCOVER_BUFFER_CAPACITY,
        max_idle_age: config.proxy.cache_max_idle_age,
    }
    ||| !target_rejected && layer == Layer::Balance {
        default_rtt_millis: EWMA_DEFAULT_RTT_MILLIS,
        decay_secs: EWMA_DECAY_SECS,
    }
    ||| !profile_rejected && layer == Layer::Profiles(StackName::HttpProfileRouteProxy)
}

/// Of what decides where a request is routed, the middle holds a balancer or a
/// forwarder, and the profile or nothing.
proof fn routes_of_the_middle<A>(
    config: Config<A>,
    profile_rejected: bool,
    target_rejected: bool,
    layer: Layer,
)
    requires
        is_route(layer),
    ensures
        meets(middle_path(config, profile_rejected, target_rejected), layer) == is_routed_by(
            config,
            profile_rejected,
            target_rejected,
            layer,
        ),
{
    let forward_cache = spec_http_forward_cache(config.proxy).layers;
    let forward = spec_http_forward().layers;
    let balancer = spec_http_balancer_cache(config.proxy).layers;
    let concrete = spec_http_concrete().layers;
    let direct = spec_http_logical_concrete().layers;
    let profile = profile_path(config);
    let router = spec_http_logical_router(config.canonicalize_timeout).layers.take(3);
    meets_on_parts(forward_cache, forward, layer);
    meets_on_parts(balancer, concrete, layer);
    let way = if target_rejected {
        forward_cache + forward
    } else {
        balancer + concrete
    };
    meets_on_parts(way, direct, layer);
    meets_on_parts(way, profile, layer);
    meets_on_parts(way + profile, router, layer);
    assert(forward_cache[5].layer == Layer::MapTarget(TargetMap::Forward));
    assert(concrete[0].layer == Layer::MapTarget(TargetMap::Balance));
    assert(balancer[2].layer is Discover && balancer[3].layer is Balance);
    assert(profile[5].layer is Profiles);
    assert(!meets(router, layer) && !meets(direct, layer) && !meets(forward, layer));
}

/// Requests to a target that discovery rejects are not balanced but forwarded to
/// the endpoint that the application selected, and no others are. Profiles have no
/// part in the requests to a target whose profile is rejected, and in no others'.
pub proof fn rejected_requests_are_forwarded<A>(
    config: Config<A>,
    local_identity: Conditional<Name>,
    span_sink: bool,
    rejected: Set<StackName>,
)
    ensures
        ({
            let layers = request_path(config, local_identity, span_sink, rejected);
            let discover = Layer::Discover {
                capacity: DISCOVER_BUFFER_CAPACITY,
                max_idle_age: config.proxy.cache_max_idle_age,
            };
            let balance = Layer::Balance {
                default_rtt_millis: EWMA_DEFAULT_RTT_MILLIS,
                decay_secs: EWMA_DECAY_SECS,
            };
            let target_rejected = rejected.contains(StackName::HttpConcrete);
            let profile_rejected = rejected.contains(StackName::HttpLogicalRouter);
            &&& meets(layers, Layer::MapTarget(TargetMap::Forward)) == target_rejected
            &&& meets(layers, Layer::MapTarget(TargetMap::Balance)) == !target_rejected
            &&& meets(layers, discover) == !target_rejected
            &&& meets(layers, balance) == !target_rejected
            &&& meets(layers, Layer::Profiles(StackName::HttpProfileRouteProxy))
                == !profile_rejected
        }),
{
    let target_rejected = rejected.contains(StackName::HttpConcrete);
    let profile_rejected = rejected.contains(StackName::HttpLogicalRouter);
    assert forall|layer: Layer| is_route(layer) implies #[trigger] meets(
        request_path(config, local_identity, span_sink, rejected),
        layer,
    ) == meets(middle_path(config, profile_rejected, target_rejected), layer) by {
        routed_in_the_middle(config, local_identity, span_sink, rejected, layer);
    }
    assert forall|layer: Layer| is_route(layer) implies #[trigger] meets(
        middle_path(config, profile_rejected, target_rejected),
        layer,
    ) == is_routed_by(config, profile_rejected, target_rejected, layer) by {
        routes_of_the_middle(config, profile_rejected, target_rejected, layer);
    }
}

/// Whether a layer configures the requests of a route.
spec fn is_of_route(layer: Layer) -> bool {
    match layer {
        Layer::Retry | Layer::RequestTimeout | Layer::RouteMetrics | Layer::Classify => true,
        _ => false,
    }
}

/// A profile has the layers of its routes in their order.
proof fn profiles_order_routes<A>(config: Config<A>)
    ensures
        meets_before(profile_path(config), Layer::Classify, Layer::RouteMetrics),
        meets_before(profile_path(config), Layer::RouteMetrics, Layer::RequestTimeout),
        meets_before(profile_path(config), Layer::RequestTimeout, Layer::Retry),
{
    let profile = profile_path(config);
    assert(profile[1].layer == Layer::Retry);
    assert(profile[2].layer == Layer::RequestTimeout);
    assert(profile[3].layer == Layer::RouteMetrics);
    assert(profile[4].layer == Layer::Classify);
    assert(forall|j: int|
        0 <= j < profile.len() && is_of_route((#[trigger] profile[j]).layer) ==> 1 <= j <= 4);
    met_before(profile, Layer::Classify, Layer::RouteMetrics, 3);
    met_before(profile, Layer::RouteMetrics, Layer::RequestTimeout, 2);
    met_before(profile, Layer::RequestTimeout, Layer::Retry, 1);
}

/// What configures the requests of a route is met nowhere but in a profile.
proof fn routes_are_met_in_profiles<A>(
    config: Config<A>,
    local_identity: Conditional<Name>,
    span_sink: bool,
    target_rejected: bool,
    layer: Layer,
)
    requires
        is_of_route(layer),
    ensures
        !meets(concrete_path(config, local_identity, span_sink, target_rejected), layer),
        !meets(spec_http_logical_concrete().layers, layer),
        !meets(spec_http_logical_router(config.canonicalize_timeout).layers, layer),
        !meets(spec_http_logical_router(config.canonicalize_timeout).layers.skip(3), layer),
        !meets(spec_http_server(config.proxy, span_sink).layers, layer),
{
    let connect = spec_tcp_connect(config.proxy.connect, local_identity).layers;
    let endpoint = spec_http_endpoint(config.proxy.connect, span_sink).layers;
    let forward_cache = spec_http_forward_cache(config.proxy).layers;
    let forward = spec_http_forward().layers;
    let balancer = spec_http_balancer_cache(config.proxy).layers;
    let concrete = spec_http_concrete().layers;
    assert(!meets(connect, layer) && !meets(endpoint, layer));
    assert(!meets(forward_cache, layer) && !meets(forward, layer));
    assert(!meets(balancer, layer) && !meets(concrete, layer));
    meets_on_parts(connect, endpoint, layer);
    meets_on_parts(connect + endpoint, forward_cache, layer);
    meets_on_parts(connect + endpoint + forward_cache, forward, layer);
    meets_on_parts(connect + endpoint, balancer, layer);
    meets_on_parts(connect + endpoint + balancer, concrete, layer);
}

/// A request that is routed by a profile is classified, counted, timed and retried as
/// its route is configured, in this order; one whose profile is rejected is not.
pub proof fn routes_configure_requests<A>(
    config: Config<A>,
    local_identity: Conditional<Name>,
    span_sink: bool,
    rejected: Set<StackName>,
)
    ensures
        ({
            let layers = request_path(config, local_identity, span_sink, rejected);
            if rejected.contains(StackName::HttpLogicalRouter) {
                &&& !meets(layers, Layer::Classify)
                &&& !meets(layers, Layer::RouteMetrics)
                &&& !meets(layers, Layer::RequestTimeout)
                &&& !meets(layers, Layer::Retry)
            } else {
                &&& meets_before(layers, Layer::Classify, Layer::RouteMetrics)
                &&& meets_before(layers, Layer::RouteMetrics, Layer::RequestTimeout)
                &&& meets_before(layers, Layer::RequestTimeout, Layer::Retry)
            }
        }),
{
    let target_rejected = rejected.contains(StackName::HttpConcrete);
    let concrete = concrete_path(config, local_identity, span_sink, target_rejected);
    let direct = spec_http_logical_concrete().layers;
    let profile = profile_path(config);
    let router = spec_http_logical_router(config.canonicalize_timeout).layers;
    let server = spec_http_server(config.proxy, span_sink).layers;
    requests_are_routed(config, local_identity, span_sink, rejected);
    profiles_order_routes(config);
    assert forall|layer: Layer| #[trigger] is_of_route(layer) implies {
        &&& !meets(concrete, layer)
        &&& !meets(router + server, layer)
        &&& !meets(concrete + direct + router.skip(3) + server, layer)
    } by {
        routes_are_met_in_profiles(config, local_identity, span_sink, target_rejected, layer);
        meets_on_parts(router, server, layer);
        meets_on_parts(concrete, direct, layer);
        meets_on_parts(concrete + direct, router.skip(3), layer);
        meets_on_parts(concrete + direct + router.skip(3), server, layer);
    }
    assert(is_of_route(Layer::Classify) && is_of_route(Layer::RouteMetrics));
    assert(is_of_route(Layer::RequestTimeout) && is_of_route(Layer::Retry));
    if !rejected.contains(StackName::HttpLogicalRouter) {
        let above = router + server;
        assert(concrete + profile + router + server =~= concrete + profile + above);
        met_before_on_a_part(concrete, profile, above, Layer::Classify, Layer::RouteMetrics);
        met_before_on_a_part(concrete, profile, above, Layer::RouteMetrics, Layer::RequestTimeout);
        met_before_on_a_part(concrete, profile, above, Layer::RequestTimeout, Layer::Retry);
    }
}

/// The logical target of a request, under its canonical address.
pub open spec fn canonical_target(lookup: Lookup) -> Logical<HttpEndpoint> {
    Target {
        addr: or_addr(lookup.canonical, lookup.logical.addr),
        inner: lookup.logical.inner,
    }
}

/// The concrete target of a request: its canonical target, under the address that a
/// profile puts in the place of its own, unless the profile is rejected.
pub open spec fn resolved_target(lookup: Lookup, profile_rejected: bool) -> Concrete<HttpEndpoint> {
    let logical = canonical_target(lookup);
    Target {
        addr: if profile_rejected {
            logical.addr
        } else {
            or_addr(lookup.overridden, logical.addr)
        },
        inner: logical,
    }
}

/// The edge recognizes the logical target of a request, and gives it its canonical
/// address.
proof fn reached_at_the_edge<A>(config: Config<A>, span_sink: bool, lookup: Lookup, meta: Meta)
    ensures
        reached(
            edge_path(config, span_sink),
            lookup,
            Asked::For(AnyTarget::Accepted(meta)),
        ) == Asked::For(AnyTarget::Logical(canonical_target(lookup))),
        reached(
            edge_path(config, span_sink).skip(1),
            lookup,
            Asked::For(AnyTarget::Accepted(meta)),
        ) == Asked::For(AnyTarget::Logical(canonical_target(lookup))),
{
    reveal(edge_path);
    let start = Asked::For(AnyTarget::Accepted(meta));
    let router = spec_http_logical_router(config.canonicalize_timeout).layers;
    let server = spec_http_server(config.proxy, span_sink).layers;
    assert(edge_path(config, span_sink).skip(1) =~= router.skip(4) + server);
    reached_through_parts(router.skip(3), server, lookup, start);
    reached_through_parts(router.skip(4), server, lookup, start);
    let logical = Asked::For(AnyTarget::Logical(lookup.logical));
    assert(reached(server, lookup, start) == logical) by {
        reveal_with_fuel(asked_under, 12);
    }
    assert(reached(router.skip(3), lookup, logical) == Asked::For(
        AnyTarget::Logical(canonical_target(lookup)),
    )) by {
        reveal_with_fuel(asked_under, 6);
    }
    assert(reached(router.skip(4), lookup, logical) == Asked::For(
        AnyTarget::Logical(canonical_target(lookup)),
    )) by {
        reveal_with_fuel(asked_under, 5);
    }
}

/// The middle makes the target of a balancer or of a forwarder of a logical target.
proof fn reached_in_the_middle<A>(
    config: Config<A>,
    lookup: Lookup,
    profile_rejected: bool,
    target_rejected: bool,
)
    ensures
        reached(
            middle_path(config, profile_rejected, target_rejected),
            lookup,
            Asked::For(AnyTarget::Logical(canonical_target(lookup))),
        ) == (if target_rejected {
            Asked::For(
                AnyTarget::Endpoint(
                    spec_forward_target(resolved_target(lookup, profile_rejected)),
                ),
            )
        } else {
            Asked::Resolved(spec_balance_target(resolved_target(lookup, profile_rejected)))
        }),
{
    let start = Asked::For(AnyTarget::Logical(canonical_target(lookup)));
    let forward_cache = spec_http_forward_cache(config.proxy).layers;
    let forward = spec_http_forward().layers;
    let balancer = spec_http_balancer_cache(config.proxy).layers;
    let concrete = spec_http_concrete().layers;
    let direct = spec_http_logical_concrete().layers;
    let profile = profile_path(config);
    let router = spec_http_logical_router(config.canonicalize_timeout).layers.take(3);
    let way = if target_rejected {
        forward_cache + forward
    } else {
        balancer + concrete
    };
    let asked = Asked::For(AnyTarget::Concrete(resolved_target(lookup, profile_rejected)));
    if profile_rejected {
        assert(reached(direct, lookup, start) == asked) by {
            reveal_with_fuel(asked_under, 4);
        }
        reached_through_parts(way, direct, lookup, start);
    } else {
        assert(reached(router, lookup, start) == start) by {
            reveal_with_fuel(asked_under, 4);
        }
        assert(reached(profile, lookup, start) == asked) by {
            reveal_with_fuel(asked_under, 13);
        }
        reached_through_parts(way + profile, router, lookup, start);
        reached_through_parts(way, profile, lookup, start);
    }
    if target_rejected {
        reached_through_parts(forward_cache, forward, lookup, asked);
        assert(reached(forward, lookup, asked) == asked) by {
            reveal_with_fuel(asked_under, 2);
        }
        assert(reached(way, lookup, asked) == Asked::For(
            AnyTarget::Endpoint(spec_forward_target(resolved_target(lookup, profile_rejected))),
        )) by {
            reveal_with_fuel(asked_under, 7);
        }
    } else {
        reached_through_parts(balancer, concrete, lookup, asked);
        let balanced = Asked::For(
            AnyTarget::Balanced(spec_balance_target(resolved_target(lookup, profile_rejected))),
        );
        assert(reached(concrete, lookup, asked) == balanced) by {
            reveal_with_fuel(asked_under, 5);
        }
        assert(reached(balancer, lookup, balanced) == Asked::Resolved(
            spec_balance_target(resolved_target(lookup, profile_rejected)),
        )) by {
            reveal_with_fuel(asked_under, 9);
        }
    }
}

/// A connection is asked for as its endpoint is.
proof fn reached_at_the_endpoint<A>(
    config: Config<A>,
    local_identity: Conditional<Name>,
    span_sink: bool,
    lookup: Lookup,
    asked: Asked,
)
    requires
        asked is Resolved || (asked is For && asked->For_0 is Endpoint),
    ensures
        reached(endpoint_path(config, local_identity, span_sink), lookup, asked) == asked,
{
    let connect = spec_tcp_connect(config.proxy.connect, local_identity).layers;
    let endpoint = spec_http_endpoint(config.proxy.connect, span_sink).layers;
    reached_through_parts(connect, endpoint, lookup, asked);
    assert(reached(endpoint, lookup, asked) == asked) by {
        reveal_with_fuel(asked_under, 13);
    }
    assert(reached(connect, lookup, asked) == asked) by {
        reveal_with_fuel(asked_under, 4);
    }
}

/// A request goes to the endpoints that its concrete target is resolved to, or, if
/// that target is rejected, to the endpoint that the application selected. On its way
/// each stack is asked for a target that it is made for, and each log context is one
/// for the target that it is made of: that of profiles for the request's profile.
pub proof fn requests_reach_their_targets<A>(
    config: Config<A>,
    local_identity: Conditional<Name>,
    span_sink: bool,
    rejected: Set<StackName>,
    lookup: Lookup,
    meta: Meta,
)
    ensures
        ({
            let layers = request_path(config, local_identity, span_sink, rejected);
            let concrete = resolved_target(
                lookup,
                rejected.contains(StackName::HttpLogicalRouter),
            );
            reached(layers, lookup, Asked::For(AnyTarget::Accepted(meta))) == (
            if rejected.contains(StackName::HttpConcrete) {
                Asked::For(
                    AnyTarget::Endpoint(
                        Target { addr: concrete.addr, inner: lookup.logical.inner },
                    ),
                )
            } else {
                Asked::Resolved(
                    Target {
                        addr: concrete.addr,
                        inner: Target {
                            addr: or_addr(lookup.canonical, lookup.logical.addr),
                            inner: lookup.logical.inner.settings,
                        },
                    },
                )
            })
        }),
{
    let profile_rejected = rejected.contains(StackName::HttpLogicalRouter);
    let target_rejected = rejected.contains(StackName::HttpConcrete);
    let start = Asked::For(AnyTarget::Accepted(meta));
    let endpoint = endpoint_path(config, local_identity, span_sink);
    let middle = middle_path(config, profile_rejected, target_rejected);
    let edge = edge_path(config, span_sink);
    requests_are_routed(config, local_identity, span_sink, rejected);
    path_in_parts(config, local_identity, span_sink, profile_rejected, target_rejected);
    reached_at_the_edge(config, span_sink, lookup, meta);
    reached_in_the_middle(config, lookup, profile_rejected, target_rejected);
    let logical = Asked::For(AnyTarget::Logical(canonical_target(lookup)));
    reached_through_parts(endpoint + middle, edge, lookup, start);
    reached_through_parts(endpoint, middle, lookup, logical);
    reached_at_the_endpoint(
        config,
        local_identity,
        span_sink,
        lookup,
        reached(middle, lookup, logical),
    );
}

/// The log context of profiles is met nowhere but in a profile.
proof fn profiles_are_logged_once<A>(
    config: Config<A>,
    local_identity: Conditional<Name>,
    span_sink: bool,
    target_rejected: bool,
)
    ensures
        ({
            let log = Layer::Log(LogContext::Profile);
            let profile = profile_path(config);
            let router = spec_http_logical_router(config.canonicalize_timeout).layers;
            let server = spec_http_server(config.proxy, span_sink).layers;
            &&& !meets(concrete_path(config, local_identity, span_sink, target_rejected), log)
            &&& !meets(spec_http_logical_concrete().layers, log)
            &&& !meets(router + server, log)
            &&& !meets(router.skip(3) + server, log)
            &&& forall|j: int|
                0 <= j < profile.len() && (#[trigger] profile[j]).layer == log ==> j == 10
        }),
{
    let log = Layer::Log(LogContext::Profile);
    let connect = spec_tcp_connect(config.proxy.connect, local_identity).layers;
    let endpoint = spec_http_endpoint(config.proxy.connect, span_sink).layers;
    let forward_cache = spec_http_forward_cache(config.proxy).layers;
    let forward = spec_http_forward().layers;
    let balancer = spec_http_balancer_cache(config.proxy).layers;
    let concrete = spec_http_concrete().layers;
    let router = spec_http_logical_router(config.canonicalize_timeout).layers;
    let server = spec_http_server(config.proxy, span_sink).layers;
    assert(!meets(connect, log) && !meets(endpoint, log));
    assert(!meets(forward_cache, log) && !meets(forward, log));
    assert(!meets(balancer, log) && !meets(concrete, log));
    assert(!meets(router, log) && !meets(router.skip(3), log) && !meets(server, log));
    meets_on_parts(connect, endpoint, log);
    meets_on_parts(connect + endpoint, forward_cache, log);
    meets_on_parts(connect + endpoint + forward_cache, forward, log);
    meets_on_parts(connect + endpoint, balancer, log);
    meets_on_parts(connect + endpoint + balancer, concrete, log);
    meets_on_parts(router, server, log);
    meets_on_parts(router.skip(3), server, log);
}

/// On the path of a request, a profile is logged in one place, if the target's profile
/// is not rejected: above the cache of profiles, and below what finds the profile.
proof fn profile_log_is_in_place<A>(
    config: Config<A>,
    local_identity: Conditional<Name>,
    span_sink: bool,
    rejected: Set<StackName>,
    k: int,
)
    requires
        0 <= k < request_path(config, local_identity, span_sink, rejected).len(),
        request_path(config, local_identity, span_sink, rejected)[k].layer == Layer::Log(
            LogContext::Profile,
        ),
    ensures
        ({
            let layers = request_path(config, local_identity, span_sink, rejected);
            let profile = profile_path(config);
            let above = spec_http_logical_router(config.canonicalize_timeout).layers
                + spec_http_server(config.proxy, span_sink).layers;
            &&& !rejected.contains(StackName::HttpLogicalRouter)
            &&& k > 0
            &&& layers[k - 1] == profile[9]
            &&& layers.skip(k + 1) == profile.skip(11) + above
            &&& layers.skip(k) == profile.skip(10) + above
        }),
{
    let target_rejected = rejected.contains(StackName::HttpConcrete);
    let layers = request_path(config, local_identity, span_sink, rejected);
    let log = Layer::Log(LogContext::Profile);
    let concrete = concrete_path(config, local_identity, span_sink, target_rejected);
    let direct = spec_http_logical_concrete().layers;
    let profile = profile_path(config);
    let router = spec_http_logical_router(config.canonicalize_timeout).layers;
    let server = spec_http_server(config.proxy, span_sink).layers;
    requests_are_routed(config, local_identity, span_sink, rejected);
    profiles_are_logged_once(config, local_identity, span_sink, target_rejected);
    assert(meets(layers, log));
    if rejected.contains(StackName::HttpLogicalRouter) {
        assert(layers =~= concrete + direct + (router.skip(3) + server));
        meets_on_parts(concrete, direct, log);
        meets_on_parts(concrete + direct, router.skip(3) + server, log);
    }
    let above = router + server;
    let m = concrete.len() as int;
    assert(layers =~= concrete + profile + above);
    if k < m {
        assert(concrete[k].layer == log);
    } else if k >= m + profile.len() {
        assert(above[k - m - profile.len()].layer == log);
    } else {
        assert(profile[k - m].layer == log);
    }
    assert(k == m + 10);
    assert(layers[k - 1] == profile[9]);
    assert(layers.skip(k + 1) =~= profile.skip(11) + above);
    assert(layers.skip(k) =~= profile.skip(10) + above);
}

/// Requests that have the same profile share its service, even where their logical
/// targets differ: a profile is what is cached and logged, and its service is then
/// asked for the target.
pub proof fn profiles_are_shared<A>(
    config: Config<A>,
    local_identity: Conditional<Name>,
    span_sink: bool,
    rejected: Set<StackName>,
    lookup: Lookup,
    meta: Meta,
    k: int,
)
    requires
        0 <= k < request_path(config, local_identity, span_sink, rejected).len(),
        request_path(config, local_identity, span_sink, rejected)[k].layer == Layer::Log(
            LogContext::Profile,
        ),
    ensures
        ({
            let layers = request_path(config, local_identity, span_sink, rejected);
            let asked = Asked::Profiled(
                lookup.profile,
                AnyTarget::Logical(canonical_target(lookup)),
            );
            &&& !rejected.contains(StackName::HttpLogicalRouter)
            &&& k > 0
            &&& layers[k - 1].layer is Cache
            &&& reached(layers.skip(k + 1), lookup, Asked::For(AnyTarget::Accepted(meta))) == asked
            &&& reached(layers.skip(k), lookup, Asked::For(AnyTarget::Accepted(meta))) == asked
        }),
{
    profile_log_is_in_place(config, local_identity, span_sink, rejected, k);
    let profile = profile_path(config);
    let router = spec_http_logical_router(config.canonicalize_timeout).layers;
    let above = router + spec_http_server(config.proxy, span_sink).layers;
    let start = Asked::For(AnyTarget::Accepted(meta));
    let logical = Asked::For(AnyTarget::Logical(canonical_target(lookup)));
    let edge = edge_path(config, span_sink);
    reached_at_the_edge(config, span_sink, lookup, meta);
    assert(above =~= router.take(3) + edge) by {
        reveal(edge_path);
    }
    reached_through_parts(router.take(3), edge, lookup, start);
    assert(reached(router.take(3), lookup, logical) == logical) by {
        reveal_with_fuel(asked_under, 4);
    }
    reached_through_parts(profile.skip(11), above, lookup, start);
    reached_through_parts(profile.skip(10), above, lookup, start);
    let asked = Asked::Profiled(lookup.profile, AnyTarget::Logical(canonical_target(lookup)));
    assert(reached(profile.skip(11), lookup, logical) == asked) by {
        reveal_with_fuel(asked_under, 2);
    }
    assert(reached(profile.skip(10), lookup, logical) == asked) by {
        reveal_with_fuel(asked_under, 3);
    }
}

/// The header that says what the canonical destination of a request is says so of
/// the canonical target.
pub proof fn canonical_targets_are_said<A>(
    config: Config<A>,
    local_identity: Conditional<Name>,
    span_sink: bool,
    rejected: Set<StackName>,
    lookup: Lookup,
    meta: Meta,
    k: int,
)
    requires
        0 <= k < request_path(config, local_identity, span_sink, rejected).len(),
        request_path(config, local_identity, span_sink, rejected)[k].layer
            == Layer::HeaderFromTarget(Header::CanonicalDst),
    ensures
        reached(
            request_path(config, local_identity, span_sink, rejected).skip(k + 1),
            lookup,
            Asked::For(AnyTarget::Accepted(meta)),
        ) == Asked::For(AnyTarget::Logical(canonical_target(lookup))),
{
    let layers = request_path(config, local_identity, span_sink, rejected);
    let edge = edge_path(config, span_sink);
    edge_places(config, span_sink);
    path_places(config, local_identity, span_sink, rejected);
    reached_at_the_edge(config, span_sink, lookup, meta);
    let n = layers.len() - 16;
    assert(in_place(place(layers[k].layer), k, n));
    assert forall|j: int| 0 <= j < 15 implies layers.skip(k + 1)[j] == #[trigger] edge.skip(
        1,
    )[j] by {
        assert(layers[n + (j + 1)] == edge[j + 1]);
    }
    assert(layers.skip(k + 1) =~= edge.skip(1));
}

/// What is added to a request is the connection that it was accepted on, since its
/// logical target is not yet recognized then.
pub proof fn accepted_connections_are_added<A>(
    config: Config<A>,
    local_identity: Conditional<Name>,
    span_sink: bool,
    rejected: Set<StackName>,
    lookup: Lookup,
    meta: Meta,
    k: int,
)
    requires
        0 <= k < request_path(config, local_identity, span_sink, rejected).len(),
        request_path(config, local_identity, span_sink, rejected)[k].layer == Layer::InsertTarget,
    ensures
        reached(
            request_path(config, local_identity, span_sink, rejected).skip(k + 1),
            lookup,
            Asked::For(AnyTarget::Accepted(meta)),
        ) == Asked::For(AnyTarget::Accepted(meta)),
{
    let layers = request_path(config, local_identity, span_sink, rejected);
    let edge = edge_path(config, span_sink);
    let server = spec_http_server(config.proxy, span_sink).layers;
    edge_places(config, span_sink);
    path_places(config, local_identity, span_sink, rejected);
    let n = layers.len() - 16;
    assert(in_place(place(layers[k].layer), k, n));
    assert(edge.skip(9) =~= server.skip(4)) by {
        reveal(edge_path);
    }
    assert forall|j: int| 0 <= j < 7 implies layers.skip(k + 1)[j] == #[trigger] edge.skip(
        9,
    )[j] by {
        assert(layers[n + (j + 9)] == edge[j + 9]);
    }
    assert(layers.skip(k + 1) =~= server.skip(4));
    reveal_with_fuel(asked_under, 8);
}

/// A TCP stream is forwarded to where its connection was going.
pub proof fn streams_reach_their_targets<A>(
    config: Config<A>,
    local_identity: Conditional<Name>,
    span_sink: bool,
    rejected: Set<StackName>,
    lookup: Lookup,
    meta: Meta,
)
    ensures
        ({
            let plan = spec_plan(config, local_identity, span_sink);
            let layers = path(plan.stacks, rejected, position(plan.stacks, plan.server.tcp));
            reached(layers, lookup, Asked::For(AnyTarget::Accepted(meta))) == Asked::For(
                AnyTarget::Tcp(meta.target_addr),
            )
        }),
{
    tcp_streams_are_forwarded(config, local_identity, span_sink, rejected);
    let connect = spec_tcp_connect(config.proxy.connect, local_identity).layers;
    let forward = spec_tcp_forward().layers;
    let start = Asked::For(AnyTarget::Accepted(meta));
    reached_through_parts(connect, forward, lookup, start);
    assert(reached(connect + forward, lookup, start) == Asked::For(
        AnyTarget::Tcp(meta.target_addr),
    )) by {
        reveal_with_fuel(asked_under, 4);
    }
}

/// A name is refined as it is asked for.
pub proof fn names_are_refined_as_asked<A>(
    config: Config<A>,
    local_identity: Conditional<Name>,
    span_sink: bool,
    rejected: Set<StackName>,
    lookup: Lookup,
    name: String,
)
    ensures
        ({
            let stacks = spec_stacks(config, local_identity, span_sink);
            let layers = path(stacks, rejected, position(stacks, StackName::DnsRefineCache));
            reached(layers, lookup, Asked::For(AnyTarget::DnsName(name))) == Asked::For(
                AnyTarget::DnsName(name),
            )
        }),
{
    let stacks = spec_stacks(config, local_identity, span_sink);
    found(config, local_identity, span_sink, 9);
    assert(!falls_back(stacks[9].layers));
    entered_plainly(config, local_identity, span_sink, 9);
    assert(path(stacks, rejected, 9) == stacks[9].layers);
    reveal_with_fuel(asked_under, 6);
}

/// Whether the failures that some layers let through have been classified: of the
/// locks among them, the last one classifies failures.
pub open spec fn classifies_failures(layers: Seq<Push>) -> bool {
    exists|k: int|
        {
            &&& 0 <= k < layers.len()
            &&& (#[trigger] layers[k]).layer == Layer::Lock(LockError::Discovery)
            &&& forall|j: int| k < j < layers.len() ==> !((#[trigger] layers[j]).layer is Lock)
        }
}

/// A fallback is asked about failures that have been classified, whatever else has
/// been rejected below it.
pub proof fn fallbacks_see_classified_failures<A>(
    config: Config<A>,
    local_identity: Conditional<Name>,
    span_sink: bool,
    rejected: Set<StackName>,
    i: int,
)
    requires
        0 <= i < spec_stacks(config, local_identity, span_sink).len(),
        falls_back(spec_stacks(config, local_identity, span_sink)[i].layers),
    ensures
        ({
            let stacks = spec_stacks(config, local_identity, span_sink);
            let layers = stacks[i].layers;
            &&& stacks[i].base is Stack
            &&& classifies_failures(
                path(stacks, rejected, position(stacks, stacks[i].base->Stack_0)) + layers.take(
                    fallback_index(layers),
                ),
            )
        }),
{
    let stacks = spec_stacks(config, local_identity, span_sink);
    let layers = stacks[i].layers;
    let at = fallback_index(layers);
    assert(falls_back_at(layers, at));
    assert(i == 6 && at == 3 || i == 11 && at == 2);
    let b = if i == 6 {
        3int
    } else {
        8int
    };
    let l = if i == 6 {
        5int
    } else {
        8int
    };
    found(config, local_identity, span_sink, b);
    assert(stacks[b].name == stacks[i].base->Stack_0);
    assert(!falls_back(stacks[b].layers));
    let inner = path(stacks, rejected, b);
    let own = if i == 6 {
        stacks[3].layers
    } else {
        profile_path(config)
    };
    entered_plainly(config, local_identity, span_sink, 3);
    profiles_enter_routes(config, local_identity, span_sink);
    let offset = inner.len() - own.len();
    assert(offset >= 0 && inner.skip(offset) =~= own);
    let all = inner + layers.take(at);
    assert(own[l].layer == Layer::Lock(LockError::Discovery));
    assert(forall|j: int| l < j < own.len() ==> !((#[trigger] own[j]).layer is Lock));
    assert(forall|j: int| 0 <= j < at ==> !((#[trigger] layers[j]).layer is Lock));
    assert(inner[offset + l] == inner.skip(offset)[l]);
    assert(all[offset + l].layer == Layer::Lock(LockError::Discovery));
    assert forall|j: int| offset + l < j < all.len() implies !(
    (#[trigger] all[j]).layer is Lock) by {
        if j < inner.len() {
            assert(inner[j] == inner.skip(offset)[j - offset]);
            assert(!(own[j - offset].layer is Lock));
        } else {
            assert(all[j] == layers[j - inner.len()]);
        }
    }
}

/// Two stacks have fallbacks: the one for concrete targets, which are forwarded
/// instead, and the one for logical targets, which do without a profile instead.
pub proof fn only_targets_and_profiles_have_fallbacks<A>(
    config: Config<A>,
    local_identity: Conditional<Name>,
    span_sink: bool,
    i: int,
)
    requires
        0 <= i < spec_stacks(config, local_identity, span_sink).len(),
    ensures
        ({
            let stack = spec_stacks(config, local_identity, span_sink)[i];
            stack.fallback() == match stack.name {
                StackName::HttpConcrete => Some(StackName::HttpForward),
                StackName::HttpLogicalRouter => Some(StackName::HttpLogicalConcrete),
                _ => None,
            }
        }),
{
    let stacks = spec_stacks(config, local_identity, span_sink);
    assert(falls_back_at(stacks[6].layers, 3));
    assert(falls_back_at(stacks[6].layers, fallback_index(stacks[6].layers)));
    assert(falls_back_at(stacks[11].layers, 2));
    assert(falls_back_at(stacks[11].layers, fallback_index(stacks[11].layers)));
    if falls_back(stacks[i].layers) {
        assert(falls_back_at(stacks[i].layers, fallback_index(stacks[i].layers)));
    }
}

/// Whether an error rejects the discovery of a target.
pub open spec fn rejects(err: Error) -> bool {
    match err {
        Error::Discovery(DiscoveryError::DiscoveryRejected) => true,
        Error::DiscoveryRejected => true,
        Error::InvalidProfileAddr => true,
        _ => false,
    }
}

/// A failure, once it is classified, is recovered from if and only if it rejects
/// the discovery of a target; then it is by the stack's fallback.
pub proof fn rejections_are_recovered_from(stack: StackView, err: Error)
    ensures
        stack.recover(Error::Discovery(DiscoveryError::from_spec(err))) == (if rejects(err) {
            stack.fallback()
        } else {
            None
        }),
{
}

/// Classifying a failure again changes nothing.
pub proof fn classification_is_idempotent(err: Error)
    ensures
        DiscoveryError::from_spec(Error::Discovery(DiscoveryError::from_spec(err)))
            == DiscoveryError::from_spec(err),
{
}

/// A failure keeps its message when it is classified, unless it is told by its type
/// alone that it rejects a target.
pub proof fn classification_keeps_messages(err: Error)
    requires
        err != Error::DiscoveryRejected,
        err != Error::InvalidProfileAddr,
    ensures
        err.message() == Some(DiscoveryError::from_spec(err).message()),
{
}

/// A request whose logical target cannot be resolved is dispatched to that very
/// target: what forwards its concrete target undoes what made it of the logical one.
pub proof fn unresolved_targets_are_themselves(logical: Logical<HttpEndpoint>)
    ensures
        ({
            let concrete = TargetMap::Concrete.spec_apply(AnyTarget::Logical(logical));
            &&& concrete is Some
            &&& TargetMap::Forward.spec_apply(concrete->0) == Some(AnyTarget::Endpoint(logical))
        }),
{
}

/// A profile that overrides the address of a target leaves the endpoint that it is
/// forwarded to, and the settings and the logical address that it is balanced by.
pub proof fn overrides_keep_the_endpoint(
    concrete: Concrete<HttpEndpoint>,
    overridden: Concrete<HttpEndpoint>,
)
    requires
        overridden.inner == concrete.inner,
    ensures
        TargetMap::Forward.spec_apply(AnyTarget::Concrete(overridden)) == Some(
            AnyTarget::Endpoint(
                (Target { addr: overridden.addr, inner: concrete.inner.inner }),
            ),
        ),
        TargetMap::Balance.spec_apply(AnyTarget::Concrete(overridden)) == Some(
            AnyTarget::Balanced(
                (Target {
                    addr: overridden.addr,
                    inner: Target {
                        addr: concrete.inner.addr,
                        inner: concrete.inner.inner.settings,
                    },
                }),
            ),
        ),
{
}

/// Two concrete targets share a balancer if and only if they agree in their
/// addresses and in the settings of their endpoints.
pub proof fn balancers_are_shared(a: Concrete<HttpEndpoint>, b: Concrete<HttpEndpoint>)
    ensures
        TargetMap::Balance.spec_apply(AnyTarget::Concrete(a)) == TargetMap::Balance.spec_apply(
            AnyTarget::Concrete(b),
        ) <==> {
            &&& a.addr == b.addr
            &&& a.inner.addr == b.inner.addr
            &&& a.inner.inner.settings == b.inner.inner.settings
        },
{
}

/// A clone of a configuration builds the same proxy.
pub proof fn clones_build_alike<A: Clone>(
    config: Config<A>,
    clone: Config<A>,
    local_identity: Conditional<Name>,
    span_sink: bool,
)
    requires
        cloned(config, clone),
    ensures
        spec_plan(clone, local_identity, span_sink) == spec_plan(
            config,
            local_identity,
            span_sink,
        ),
{
    assert(cloned(config.proxy, clone.proxy));
    assert(cloned(config.proxy.server, clone.proxy.server));
}

/// Of what recovers original destinations, the last that was set counts.
pub proof fn last_orig_dst_addr_counts<A, B, C>(config: Config<A>, first: B, last: C)
    ensures
        config.spec_with_orig_dst_addr(first).spec_with_orig_dst_addr(last)
            == config.spec_with_orig_dst_addr(last),
{
}

} // verus!
