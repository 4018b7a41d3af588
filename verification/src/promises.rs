//! What the proxy promises of its parts, in terms of what they are given: of each
//! stack what its configuration makes of it, and of each target, label and failure
//! what becomes of it.
use crate::addr::SocketAddr;
use crate::config::{Backoff, Config, ProxyConfig};
use crate::discovery::{DiscoveryError, Error};
use crate::endpoint::{Concrete, HttpEndpoint, Logical, Meta, Profile, Protocol, Settings, Target};
use crate::endpoint::{balance_target, concrete_target, forward_target, TcpEndpoint};
use crate::identity::{Conditional, Name, ReasonForNoIdentity};
use crate::labels::{Key, LabelTransport, Side, TransportLabels};
use crate::layer::{Base, Header, Layer, LockError, LogContext, Message, Push, Recognize, Scope};
use crate::layer::{SpanKind, StackName, StackView, TargetMap};
use crate::outbound::Outbound;
use crate::plan::{spec_plan, spec_stacks, Plan};
use crate::route::{fallback_index, falls_back, falls_back_at, meets_before, met_before};
use crate::target::{AnyTarget, LogAddr};
use vstd::prelude::*;
use vstd::std_specs::convert::FromSpec;

verus! {

/// Every stack is planned.
pub proof fn every_stack_is_planned<A>(
    config: Config<A>,
    local_identity: Conditional<Name>,
    span_sink: bool,
    name: StackName,
)
    ensures
        exists|i: int|
            0 <= i < spec_stacks(config, local_identity, span_sink).len() && (
            #[trigger] spec_stacks(config, local_identity, span_sink)[i]).name == name,
{
    let stacks = spec_stacks(config, local_identity, span_sink);
    assert(stacks[0].name == StackName::TcpConnect);
    assert(stacks[1].name == StackName::TcpForward);
    assert(stacks[2].name == StackName::HttpEndpoint);
    assert(stacks[3].name == StackName::HttpBalancerCache);
    assert(stacks[4].name == StackName::HttpForwardCache);
    assert(stacks[5].name == StackName::HttpForward);
    assert(stacks[6].name == StackName::HttpConcrete);
    assert(stacks[7].name == StackName::HttpProfileRouteProxy);
    assert(stacks[8].name == StackName::HttpLogicalProfileCache);
    assert(stacks[9].name == StackName::DnsRefineCache);
    assert(stacks[10].name == StackName::HttpLogicalConcrete);
    assert(stacks[11].name == StackName::HttpLogicalRouter);
    assert(stacks[12].name == StackName::HttpServer);
}

/// Connections are kept alive as the proxy is configured to keep those that it
/// establishes. All that carries traffic is built on connections: endpoints on
/// connections, balancers and forwarders on endpoints, concrete targets on balancers,
/// profiles on concrete targets, and what serves requests on logical targets.
pub proof fn stacks_are_built_on_one_another<A>(
    config: Config<A>,
    local_identity: Conditional<Name>,
    span_sink: bool,
    i: int,
)
    requires
        0 <= i < spec_stacks(config, local_identity, span_sink).len(),
    ensures
        ({
            let stack = spec_stacks(config, local_identity, span_sink)[i];
            match stack.name {
                StackName::TcpConnect => stack.base == (Base::Connect {
                    keepalive: config.proxy.connect.keepalive,
                }),
                StackName::TcpForward => stack.base == Base::Stack(StackName::TcpConnect),
                StackName::HttpEndpoint => stack.base == Base::Stack(StackName::TcpConnect),
                StackName::HttpBalancerCache => stack.base == Base::Stack(StackName::HttpEndpoint),
                StackName::HttpForwardCache => stack.base == Base::Stack(StackName::HttpEndpoint),
                StackName::HttpForward => stack.base == Base::Stack(StackName::HttpForwardCache),
                StackName::HttpConcrete => stack.base == Base::Stack(StackName::HttpBalancerCache),
                StackName::HttpProfileRouteProxy => stack.base == Base::Proxies,
                StackName::HttpLogicalProfileCache => stack.base == Base::Stack(
                    StackName::HttpConcrete,
                ),
                StackName::DnsRefineCache => stack.base == Base::DnsRefine,
                StackName::HttpLogicalConcrete => stack.base == Base::Stack(
                    StackName::HttpConcrete,
                ),
                StackName::HttpLogicalRouter => stack.base == Base::Stack(
                    StackName::HttpLogicalProfileCache,
                ),
                StackName::HttpServer => stack.base == Base::Stack(StackName::HttpLogicalRouter),
            }
        }),
{
}

/// Every parameter of a layer is the one that is configured for its purpose:
///
/// - connections are established as the local identity and within the connect
///   timeout, HTTP/2 clients have the connect windows, and are connected again with
///   the connect backoff;
/// - services are acquired within the acquisition timeout, and names canonicalized
///   within the canonicalization timeout;
/// - as many requests are in flight as the configuration allows;
/// - caches and discovery have the cache limits, discovery with ten pending updates;
/// - balancers assume 30 milliseconds, and forget over 10 seconds;
/// - spans are exported as a client's where requests are sent and as a server's where
///   they are served, if there is a sink.
pub proof fn parameters_are_configured<A>(
    config: Config<A>,
    local_identity: Conditional<Name>,
    span_sink: bool,
    i: int,
    k: int,
)
    requires
        0 <= i < spec_stacks(config, local_identity, span_sink).len(),
        0 <= k < spec_stacks(config, local_identity, span_sink)[i].layers.len(),
    ensures
        ({
            let stack = spec_stacks(config, local_identity, span_sink)[i];
            let proxy = config.proxy;
            match stack.layers[k].layer {
                Layer::TlsClient(identity) => identity == local_identity,
                Layer::Timeout(timeout) => if stack.name == StackName::TcpConnect {
                    timeout == proxy.connect.timeout
                } else {
                    timeout == proxy.service_acquisition_timeout
                },
                Layer::HttpClient(settings) => settings == proxy.connect.h2_settings,
                Layer::Reconnect(backoff) => backoff == proxy.connect.backoff,
                Layer::TraceContext(kind) => if !span_sink {
                    kind is None
                } else if stack.name == StackName::HttpEndpoint {
                    kind == Some(SpanKind::Client)
                } else {
                    kind == Some(SpanKind::Server)
                },
                Layer::Discover { capacity, max_idle_age } => {
                    capacity == 10 && max_idle_age == proxy.cache_max_idle_age
                },
                Layer::Balance { default_rtt_millis, decay_secs } => {
                    default_rtt_millis == 30 && decay_secs == 10
                },
                Layer::Cache { capacity, max_idle_age } => {
                    capacity == proxy.cache_capacity && max_idle_age == proxy.cache_max_idle_age
                },
                Layer::Canonicalize { refine, timeout } => {
                    refine == StackName::DnsRefineCache && timeout == config.canonicalize_timeout
                },
                Layer::ConcurrencyLimit(limit) => limit == proxy.max_in_flight_requests,
                _ => true,
            }
        }),
{
}

/// Whether two layers are of one kind: whether they differ at most in what the proxy
/// is configured with.
pub open spec fn same_kind(a: Layer, b: Layer) -> bool {
    match (a, b) {
        (Layer::TlsClient(_), Layer::TlsClient(_)) => true,
        (Layer::Timeout(_), Layer::Timeout(_)) => true,
        (Layer::HttpClient(_), Layer::HttpClient(_)) => true,
        (Layer::Reconnect(_), Layer::Reconnect(_)) => true,
        (Layer::TraceContext(_), Layer::TraceContext(_)) => true,
        (Layer::Discover { .. }, Layer::Discover { .. }) => true,
        (Layer::Cache { .. }, Layer::Cache { .. }) => true,
        (Layer::Canonicalize { .. }, Layer::Canonicalize { .. }) => true,
        (Layer::ConcurrencyLimit(_), Layer::ConcurrencyLimit(_)) => true,
        _ => a == b,
    }
}

/// Whatever two proxies are configured with, whatever their identities are and
/// whether or not they export spans, they are composed alike: they have the same
/// stacks, of as many layers, and the layers at each place are of one kind and have
/// the same scope.
pub proof fn proxies_are_composed_alike<A, B>(
    a: Config<A>,
    a_identity: Conditional<Name>,
    a_sink: bool,
    b: Config<B>,
    b_identity: Conditional<Name>,
    b_sink: bool,
    i: int,
)
    ensures
        spec_stacks(a, a_identity, a_sink).len() == spec_stacks(b, b_identity, b_sink).len(),
        0 <= i < spec_stacks(a, a_identity, a_sink).len() ==> {
            let one = spec_stacks(a, a_identity, a_sink)[i];
            let other = spec_stacks(b, b_identity, b_sink)[i];
            &&& one.name == other.name
            &&& one.layers.len() == other.layers.len()
            &&& forall|k: int|
                0 <= k < one.layers.len() ==> {
                    &&& (#[trigger] one.layers[k]).scope == other.layers[k].scope
                    &&& same_kind(one.layers[k].layer, other.layers[k].layer)
                }
        },
{
    let one = spec_stacks(a, a_identity, a_sink);
    let other = spec_stacks(b, b_identity, b_sink);
    if 0 <= i < one.len() {
        assert(one[i].name == other[i].name);
        assert(one[i].layers.len() == other[i].layers.len());
    }
}

/// Whether spans are exported changes nothing but the trace contexts.
pub proof fn span_sinks_change_trace_contexts_alone<A>(
    config: Config<A>,
    local_identity: Conditional<Name>,
    i: int,
    k: int,
)
    requires
        0 <= i < spec_stacks(config, local_identity, true).len(),
        0 <= k < spec_stacks(config, local_identity, true)[i].layers.len(),
        !(spec_stacks(config, local_identity, true)[i].layers[k].layer is TraceContext),
    ensures
        spec_stacks(config, local_identity, false)[i].layers[k] == spec_stacks(
            config,
            local_identity,
            true,
        )[i].layers[k],
{
}

/// The identity that connections are established as changes nothing but that.
pub proof fn identities_change_connections_alone<A>(
    config: Config<A>,
    one: Conditional<Name>,
    other: Conditional<Name>,
    span_sink: bool,
    i: int,
)
    requires
        0 <= i < spec_stacks(config, one, span_sink).len(),
        spec_stacks(config, one, span_sink)[i].name != StackName::TcpConnect,
    ensures
        spec_stacks(config, other, span_sink)[i] == spec_stacks(config, one, span_sink)[i],
{
}

/// Whether a layer acts on requests or responses, or on a service that is shared, and
/// not on targets.
pub open spec fn acts_on_services(layer: Layer) -> bool {
    match layer {
        Layer::TraceContext(_)
        | Layer::StripHeader(_, _)
        | Layer::BoxRequest
        | Layer::BoxedHttpRequest
        | Layer::BoxedHttpResponse
        | Layer::Balance { .. }
        | Layer::Lock(_)
        | Layer::ConcurrencyLimit(_)
        | Layer::LoadShed
        | Layer::Errors
        | Layer::HandleTime => true,
        _ => false,
    }
}

/// A layer that acts on requests, responses or a shared service is on each service,
/// and one that acts on targets is on what makes services. In what serves requests,
/// readiness is put off for each request; a profile's service is asked for targets, so
/// they are mapped for each.
pub proof fn layers_have_their_scopes<A>(
    config: Config<A>,
    local_identity: Conditional<Name>,
    span_sink: bool,
    i: int,
    k: int,
)
    requires
        0 <= i < spec_stacks(config, local_identity, span_sink).len(),
        0 <= k < spec_stacks(config, local_identity, span_sink)[i].layers.len(),
    ensures
        ({
            let stack = spec_stacks(config, local_identity, span_sink)[i];
            let push = stack.layers[k];
            push.scope == Scope::Service <==> {
                ||| acts_on_services(push.layer)
                ||| push.layer is Oneshot && stack.name == StackName::HttpServer
                ||| push.layer is MapTarget && stack.name == StackName::HttpLogicalProfileCache
            }
        }),
{
}

/// Connections that are not searched for TLS, and those whose protocol is not
/// detected, are those on the ports that are configured, and no others.
pub proof fn configured_ports_are_skipped<A>(
    config: Config<A>,
    local_identity: Conditional<Name>,
    span_sink: bool,
    port: u16,
)
    ensures
        ({
            let plan = spec_plan(config, local_identity, span_sink);
            let ports = config.proxy.disable_protocol_detection_for_ports@;
            &&& plan.accept.skip_ports.contains(port) <==> ports.contains(port)
            &&& plan.server.disable_protocol_detection_for_ports.contains(port)
                <==> ports.contains(port)
            &&& plan.accept.skip_ports == ports
            &&& plan.server.disable_protocol_detection_for_ports == ports
        }),
{
}

/// Accepted connections are served with the server's HTTP/2 windows: those that carry
/// HTTP by the stack that serves requests, the others by the one that forwards
/// streams.
pub proof fn connections_are_served<A>(
    config: Config<A>,
    local_identity: Conditional<Name>,
    span_sink: bool,
)
    ensures
        ({
            let plan = spec_plan(config, local_identity, span_sink);
            &&& plan.server.h2_settings == config.proxy.server.h2_settings
            &&& plan.server.tcp == StackName::TcpForward
            &&& plan.server.http == StackName::HttpServer
            &&& plan.stacks == spec_stacks(config, local_identity, span_sink)
        }),
{
}

/// Exported spans have one label, which says that the proxy is the outbound one.
pub proof fn spans_say_outbound<A>(
    config: Config<A>,
    local_identity: Conditional<Name>,
    span_sink: bool,
    label: Seq<char>,
)
    ensures
        ({
            let labels = spec_plan(config, local_identity, span_sink).trace_labels;
            &&& labels.contains_key(label) <==> label == "direction"@
            &&& labels["direction"@] == "outbound"@
        }),
{
}

/// Of a proxy's configuration, replacing what recovers original destinations keeps
/// every field but that one, which is then the given one.
pub proof fn only_orig_dst_addr_is_replaced<A, B>(
    proxy: ProxyConfig<A>,
    orig_dst_addr: B,
    replaced: ProxyConfig<B>,
)
    requires
        call_ensures(
            ProxyConfig::<A>::with_orig_dst_addr::<B>,
            (proxy, orig_dst_addr),
            replaced,
        ),
    ensures
        replaced == proxy.spec_with_orig_dst_addr(orig_dst_addr),
        replaced.server.bind.orig_dst_addr == orig_dst_addr,
        replaced.server.bind.bind_addr == proxy.server.bind.bind_addr,
        replaced.server.bind.keepalive == proxy.server.bind.keepalive,
        replaced.server.h2_settings == proxy.server.h2_settings,
        replaced.connect == proxy.connect,
        replaced.cache_capacity == proxy.cache_capacity,
        replaced.cache_max_idle_age == proxy.cache_max_idle_age,
        replaced.disable_protocol_detection_for_ports
            == proxy.disable_protocol_detection_for_ports,
        replaced.service_acquisition_timeout == proxy.service_acquisition_timeout,
        replaced.max_in_flight_requests == proxy.max_in_flight_requests,
{
}

/// The same holds of the configuration of the outbound proxy, which keeps the timeout
/// of canonicalization too.
pub proof fn only_outbound_orig_dst_addr_is_replaced<A, B>(
    config: Config<A>,
    orig_dst_addr: B,
    replaced: Config<B>,
)
    requires
        call_ensures(
            Config::<A>::with_orig_dst_addr::<B>,
            (config, orig_dst_addr),
            replaced,
        ),
    ensures
        replaced == config.spec_with_orig_dst_addr(orig_dst_addr),
        ({
            let bind = config.proxy.server.bind;
            &&& replaced.canonicalize_timeout == config.canonicalize_timeout
            &&& replaced.proxy.server.bind.orig_dst_addr == orig_dst_addr
            &&& replaced.proxy.server.bind.bind_addr == bind.bind_addr
            &&& replaced.proxy.server.bind.keepalive == bind.keepalive
            &&& replaced.proxy.server.h2_settings == config.proxy.server.h2_settings
            &&& replaced.proxy.connect == config.proxy.connect
            &&& replaced.proxy.cache_capacity == config.proxy.cache_capacity
            &&& replaced.proxy.cache_max_idle_age == config.proxy.cache_max_idle_age
            &&& replaced.proxy.disable_protocol_detection_for_ports
                == config.proxy.disable_protocol_detection_for_ports
            &&& replaced.proxy.service_acquisition_timeout
                == config.proxy.service_acquisition_timeout
            &&& replaced.proxy.max_in_flight_requests == config.proxy.max_in_flight_requests
        }),
{
}

/// Setting what recovers original destinations to what it was changes nothing.
pub proof fn orig_dst_addr_can_be_set_back<A, B>(config: Config<A>, orig_dst_addr: B)
    ensures
        config.spec_with_orig_dst_addr(orig_dst_addr).spec_with_orig_dst_addr(
            config.proxy.server.bind.orig_dst_addr,
        ) == config,
{
}

/// A clone of a configuration agrees with it in every field, up to a clone of what
/// recovers original destinations.
pub proof fn clones_agree<A: Clone>(config: Config<A>, clone: Config<A>)
    requires
        cloned(config, clone),
    ensures
        clone.canonicalize_timeout == config.canonicalize_timeout,
        clone.proxy.server.bind.bind_addr == config.proxy.server.bind.bind_addr,
        clone.proxy.server.bind.keepalive == config.proxy.server.bind.keepalive,
        cloned(config.proxy.server.bind.orig_dst_addr, clone.proxy.server.bind.orig_dst_addr),
        clone.proxy.server.h2_settings == config.proxy.server.h2_settings,
        clone.proxy.connect == config.proxy.connect,
        clone.proxy.cache_capacity == config.proxy.cache_capacity,
        clone.proxy.cache_max_idle_age == config.proxy.cache_max_idle_age,
        clone.proxy.disable_protocol_detection_for_ports@
            == config.proxy.disable_protocol_detection_for_ports@,
        clone.proxy.service_acquisition_timeout == config.proxy.service_acquisition_timeout,
        clone.proxy.max_in_flight_requests == config.proxy.max_in_flight_requests,
{
    assert(cloned(config.proxy, clone.proxy));
    assert(cloned(config.proxy.server, clone.proxy.server));
    assert(cloned(config.proxy.server.bind, clone.proxy.server.bind));
}

/// A balancer is asked for under the address of a concrete target, the address of the
/// logical target in it, and the settings of its endpoint, each as it is.
pub proof fn balancers_are_asked_for_as_targets_are(concrete: Concrete<HttpEndpoint>)
    ensures
        ({
            let asked = TargetMap::Balance.spec_apply(AnyTarget::Concrete(concrete));
            let settings = concrete.inner.inner.settings;
            &&& asked is Some && asked->0 is Balanced
            &&& (asked->0)->Balanced_0.addr == concrete.addr
            &&& (asked->0)->Balanced_0.inner.addr == concrete.inner.addr
            &&& (asked->0)->Balanced_0.inner.inner == settings
            &&& settings matches Settings::Http1 {
                keep_alive,
                wants_h1_upgrade,
                was_absolute_form,
            } ==> (asked->0)->Balanced_0.inner.inner == (Settings::Http1 {
                keep_alive,
                wants_h1_upgrade,
                was_absolute_form,
            })
        }),
{
}

/// A request is forwarded to the endpoint of its target, with the address, settings
/// and identity of that endpoint, under the address of the concrete target.
pub proof fn forwarders_are_asked_for_as_endpoints_are(concrete: Concrete<HttpEndpoint>)
    ensures
        ({
            let asked = TargetMap::Forward.spec_apply(AnyTarget::Concrete(concrete));
            let endpoint = concrete.inner.inner;
            &&& asked is Some && asked->0 is Endpoint
            &&& (asked->0)->Endpoint_0.addr == concrete.addr
            &&& (asked->0)->Endpoint_0.inner.addr == endpoint.addr
            &&& (asked->0)->Endpoint_0.inner.settings == endpoint.settings
            &&& (asked->0)->Endpoint_0.inner.identity == endpoint.identity
        }),
{
}

/// A concrete target has the address of the logical target that it is made of, and
/// that target in it.
pub proof fn concrete_targets_hold_logical_ones(logical: Logical<HttpEndpoint>)
    ensures
        ({
            let asked = TargetMap::Concrete.spec_apply(AnyTarget::Logical(logical));
            &&& asked is Some && asked->0 is Concrete
            &&& (asked->0)->Concrete_0.addr == logical.addr
            &&& (asked->0)->Concrete_0.inner.addr == logical.addr
            &&& (asked->0)->Concrete_0.inner.inner == logical.inner
        }),
{
}

/// A stream is forwarded to the address that its connection was going to.
pub proof fn streams_are_forwarded_where_they_go(meta: Meta)
    ensures
        TargetMap::Tcp.spec_apply(AnyTarget::Accepted(meta)) == Some(
            AnyTarget::Tcp(meta.target_addr),
        ),
{
}

/// What is made of a target has its addresses and its endpoint, or the settings of
/// that endpoint, each as it is.
pub proof fn targets_are_made_of_their_parts(
    logical: Logical<HttpEndpoint>,
    concrete: Concrete<HttpEndpoint>,
    made: Concrete<HttpEndpoint>,
    balanced: Concrete<Settings>,
    forwarded: Target<HttpEndpoint>,
)
    requires
        call_ensures(concrete_target::<HttpEndpoint>, (logical,), made),
        call_ensures(balance_target, (concrete,), balanced),
        call_ensures(forward_target, (concrete,), forwarded),
    ensures
        made.addr == logical.addr,
        made.inner.addr == logical.addr,
        made.inner.inner == logical.inner,
        balanced.addr == concrete.addr,
        balanced.inner.addr == concrete.inner.addr,
        balanced.inner.inner == concrete.inner.inner.settings,
        forwarded.addr == concrete.addr,
        forwarded.inner == concrete.inner.inner,
{
}

/// A map is for one kind of target: that of streams for connections, that of concrete
/// targets for logical ones, and the other two for concrete ones.
pub proof fn maps_are_for_one_kind_of_target(map: TargetMap, target: AnyTarget)
    ensures
        map.spec_apply(target) is Some <==> match map {
            TargetMap::Tcp => target is Accepted,
            TargetMap::Concrete => target is Logical,
            TargetMap::Forward => target is Concrete,
            TargetMap::Balance => target is Concrete,
        },
{
}

/// An endpoint is logged by the address that it is connected to, a forwarder by the
/// address that it is known by, and both by the endpoint's identity.
pub proof fn endpoints_are_logged_by_identity(endpoint: Target<HttpEndpoint>)
    ensures
        ({
            let target = AnyTarget::Endpoint(endpoint);
            let at_endpoint = LogContext::Endpoint.spec_fields(&target);
            let at_forwarder = LogContext::Forward.spec_fields(&target);
            &&& at_endpoint is Some && at_forwarder is Some
            &&& at_endpoint->0.addr == Some(LogAddr::Socket(endpoint.inner.addr))
            &&& at_endpoint->0.id == Some(&endpoint.inner.identity)
            &&& at_forwarder->0.addr == Some(LogAddr::Addr(&endpoint.addr))
            &&& at_forwarder->0.id == Some(&endpoint.inner.identity)
        }),
{
}

/// Balancers and logical targets are logged by their addresses, names by themselves,
/// connections by where they were going, and profiles by nothing; none of them by an
/// identity.
pub proof fn targets_are_logged_by_address(
    balanced: Concrete<Settings>,
    logical: Logical<HttpEndpoint>,
    name: String,
    meta: Meta,
    profile: Profile,
)
    ensures
        ({
            let at_balancer = LogContext::Balance.spec_fields(&AnyTarget::Balanced(balanced));
            let at_logical = LogContext::Logical.spec_fields(&AnyTarget::Logical(logical));
            let at_name = LogContext::Canonicalize.spec_fields(&AnyTarget::DnsName(name));
            let at_source = LogContext::Source.spec_fields(&AnyTarget::Accepted(meta));
            let at_profile = LogContext::Profile.spec_fields(&AnyTarget::Profile(profile));
            &&& at_balancer is Some && at_balancer->0.id is None
            &&& at_balancer->0.addr == Some(LogAddr::Addr(&balanced.addr))
            &&& at_logical is Some && at_logical->0.id is None
            &&& at_logical->0.addr == Some(LogAddr::Addr(&logical.addr))
            &&& at_name is Some && at_name->0.id is None
            &&& at_name->0.addr == Some(LogAddr::Name(&name))
            &&& at_source is Some && at_source->0.id is None
            &&& at_source->0.addr == Some(LogAddr::Socket(meta.target_addr))
            &&& at_profile is Some && at_profile->0.id is None
            &&& at_profile->0.addr is None
        }),
{
}

/// A log context is for one kind of target.
pub proof fn contexts_are_for_one_kind_of_target(context: LogContext, target: AnyTarget)
    ensures
        context.spec_fields(&target) is Some <==> match context {
            LogContext::Endpoint => target is Endpoint,
            LogContext::Balance => target is Balanced,
            LogContext::Forward => target is Endpoint,
            LogContext::Profile => target is Profile,
            LogContext::Canonicalize => target is DnsName,
            LogContext::Logical => target is Logical,
            LogContext::Source => target is Accepted,
        },
{
}

/// The labels of a connection to an HTTP endpoint say that it is established by the
/// outbound proxy, and by which identity the endpoint is known.
pub proof fn http_connections_are_labeled(endpoint: Target<HttpEndpoint>, key: Key)
    requires
        call_ensures(
            <TransportLabels as LabelTransport<Target<HttpEndpoint>>>::transport_labels,
            (&TransportLabels, &endpoint),
            key,
        ),
    ensures
        key.side == Side::Connect,
        key.direction@ == "outbound"@,
        match endpoint.inner.identity {
            Conditional::Identity(name) => key.identity == Conditional::Identity(&name),
            Conditional::NoIdentity(reason) => key.identity
                == Conditional::<&Name>::NoIdentity(reason),
        },
{
}

/// The labels of a connection that a stream is forwarded over say that it is
/// established by the outbound proxy, and by which identity its peer is known.
pub proof fn tcp_connections_are_labeled(endpoint: TcpEndpoint, key: Key)
    requires
        call_ensures(
            <TransportLabels as LabelTransport<TcpEndpoint>>::transport_labels,
            (&TransportLabels, &endpoint),
            key,
        ),
    ensures
        key.side == Side::Connect,
        key.direction@ == "outbound"@,
        match endpoint.identity {
            Conditional::Identity(name) => key.identity == Conditional::Identity(&name),
            Conditional::NoIdentity(reason) => key.identity
                == Conditional::<&Name>::NoIdentity(reason),
        },
{
}

/// The labels of an accepted connection say that it is accepted by the outbound proxy,
/// and by which identity its peer is known.
pub proof fn accepted_connections_are_labeled(protocol: Protocol, key: Key)
    requires
        call_ensures(
            <TransportLabels as LabelTransport<Protocol>>::transport_labels,
            (&TransportLabels, &protocol),
            key,
        ),
    ensures
        key.side == Side::Accept,
        key.direction@ == "outbound"@,
        match protocol.tls.peer_identity {
            Conditional::Identity(name) => key.identity == Conditional::Identity(&name),
            Conditional::NoIdentity(reason) => key.identity
                == Conditional::<&Name>::NoIdentity(reason),
        },
{
}

/// What rejects a target is classified as a rejection, and nothing else is, whatever
/// its message says.
pub proof fn rejections_are_classified(err: Error)
    ensures
        DiscoveryError::from_spec(err) is DiscoveryRejected <==> {
            ||| err is DiscoveryRejected
            ||| err is InvalidProfileAddr
            ||| err is Discovery && err->Discovery_0 is DiscoveryRejected
        },
{
}

/// A failure that was classified before stays as it is, and one that is told by its
/// message alone keeps it.
pub proof fn other_failures_are_kept(classified: DiscoveryError, message: String)
    ensures
        DiscoveryError::from_spec(Error::Discovery(classified)) == classified,
        DiscoveryError::from_spec(Error::Other(message)) == DiscoveryError::Inner(message),
        DiscoveryError::Inner(message).message() == message@,
        DiscoveryError::DiscoveryRejected.message() == "discovery rejected"@,
{
}

/// A rejection is described as one, and any other classified failure by its message.
pub proof fn failures_are_described(err: DiscoveryError, text: String)
    requires
        call_ensures(DiscoveryError::to_string, (&err,), text),
    ensures
        err is DiscoveryRejected ==> text@ == "discovery rejected"@,
        err is Inner ==> text@ == err->Inner_0@,
{
}

/// Whatever the failure is, connecting is tried again, with the configured delays.
pub proof fn connecting_is_always_tried_again<E>(
    backoff: Backoff,
    failure: E,
    recover: Result<Backoff, E>,
)
    requires
        call_ensures(Backoff::after::<E>, (&backoff, &failure), recover),
    ensures
        recover is Ok,
        recover->Ok_0.min == backoff.min,
        recover->Ok_0.max == backoff.max,
        recover->Ok_0.jitter_bits == backoff.jitter_bits,
{
}

/// A stack whose first fallback is to some stack recovers to that one from a classified
/// rejection.
pub proof fn first_fallbacks_are_taken(stack: StackView, instead: StackName, k: int)
    requires
        0 <= k < stack.layers.len(),
        stack.layers[k].layer == Layer::FallbackIfRejected(instead),
        forall|j: int| 0 <= j < k ==> !(#[trigger] stack.layers[j].layer is FallbackIfRejected),
    ensures
        stack.recover(Error::Discovery(DiscoveryError::DiscoveryRejected)) == Some(instead),
{
    assert(falls_back_at(stack.layers, k));
    assert(falls_back_at(stack.layers, fallback_index(stack.layers)));
}

/// A stack without a fallback recovers from nothing.
pub proof fn stacks_without_fallbacks_fail(stack: StackView, err: Error)
    requires
        forall|j: int|
            0 <= j < stack.layers.len() ==> !(
            #[trigger] stack.layers[j].layer is FallbackIfRejected),
    ensures
        stack.recover(err) is None,
{
}

/// No stack recovers from an error that is not a classified rejection.
pub proof fn other_failures_are_answers(stack: StackView, err: Error)
    requires
        err is Discovery ==> err->Discovery_0 is Inner,
    ensures
        stack.recover(err) is None,
{
}

/// A proxy is built if and only if its listener is bound, and then it listens where
/// the listener does, skips the configured ports and no others, has the server's
/// HTTP/2 windows, and terminates no TLS of the local application.
pub proof fn proxies_are_built_as_configured<A, E>(
    config: Config<A>,
    local_identity: Conditional<Name>,
    span_sink: bool,
    bound: Result<SocketAddr, E>,
    built: Result<Outbound, E>,
    port: u16,
)
    requires
        call_ensures(
            Config::<A>::build::<E>,
            (config, local_identity, span_sink, bound),
            built,
        ),
    ensures
        match bound {
            Ok(addr) => {
                let ports = config.proxy.disable_protocol_detection_for_ports@;
                &&& built is Ok
                &&& built->Ok_0.listen_addr == addr
                &&& built->Ok_0.serve.accept.skip_ports@.contains(port) <==> ports.contains(port)
                &&& built->Ok_0.serve.server.disable_protocol_detection_for_ports@.contains(port)
                    <==> ports.contains(port)
                &&& built->Ok_0.serve.server.h2_settings == config.proxy.server.h2_settings
                &&& built->Ok_0.serve.accept.identity == Conditional::<Name>::NoIdentity(
                    ReasonForNoIdentity::Loopback,
                )
                &&& built->Ok_0.serve@.stacks == spec_stacks(config, local_identity, span_sink)
            },
            Err(err) => built == Err::<Outbound, E>(err),
        },
{
    if built is Ok {
        let plan = built->Ok_0.serve;
        views_show_what_there_is(plan, 0);
    }
}

/// The view of a plan shows each of its stacks with every layer, its server and its
/// ports, and what accepts connections, each as it is.
pub proof fn views_show_what_there_is(plan: Plan, i: int)
    ensures
        plan@.stacks.len() == plan.stacks@.len(),
        0 <= i < plan.stacks@.len() ==> {
            &&& plan@.stacks[i].name == plan.stacks@[i].name
            &&& plan@.stacks[i].base == plan.stacks@[i].base
            &&& plan@.stacks[i].layers == plan.stacks@[i].layers@
        },
        plan@.server.tcp == plan.server.tcp,
        plan@.server.http == plan.server.http,
        plan@.server.h2_settings == plan.server.h2_settings,
        plan@.server.disable_protocol_detection_for_ports
            == plan.server.disable_protocol_detection_for_ports@,
        plan@.accept.identity == plan.accept.identity,
        plan@.accept.skip_ports == plan.accept.skip_ports@,
        plan@.trace_labels == plan.trace_labels.deep_view(),
{
}

/// A layer that a stack has once is met after the one that was pushed next.
proof fn next_is_met_first(layers: Seq<Push>, k: int)
    requires
        0 <= k < layers.len() - 1,
        forall|j: int|
            0 <= j < layers.len() && j != k ==> (#[trigger] layers[j]).layer != layers[k].layer,
    ensures
        meets_before(layers, layers[k + 1].layer, layers[k].layer),
{
    let next = layers[k + 1];
    met_before(layers, next.layer, layers[k].layer, k);
}

/// Establishing a connection is counted with the time that it may take, and that time
/// includes the one that TLS takes.
pub proof fn connections_are_layered<A>(
    config: Config<A>,
    local_identity: Conditional<Name>,
    span_sink: bool,
    i: int,
)
    requires
        0 <= i < spec_stacks(config, local_identity, span_sink).len(),
        spec_stacks(config, local_identity, span_sink)[i].name == StackName::TcpConnect,
    ensures
        ({
            let layers = spec_stacks(config, local_identity, span_sink)[i].layers;
            let tls = Layer::TlsClient(local_identity);
            let timeout = Layer::Timeout(config.proxy.connect.timeout);
            &&& layers.len() == 3
            &&& meets_before(layers, Layer::TransportMetrics, timeout)
            &&& meets_before(layers, timeout, tls)
        }),
{
    let layers = spec_stacks(config, local_identity, span_sink)[i].layers;
    next_is_met_first(layers, 0);
    next_is_met_first(layers, 1);
}

/// The stream of a connection is copied to where the connection was going.
pub proof fn streams_are_layered<A>(
    config: Config<A>,
    local_identity: Conditional<Name>,
    span_sink: bool,
    i: int,
)
    requires
        0 <= i < spec_stacks(config, local_identity, span_sink).len(),
        spec_stacks(config, local_identity, span_sink)[i].name == StackName::TcpForward,
    ensures
        ({
            let layers = spec_stacks(config, local_identity, span_sink)[i].layers;
            let map = Layer::MapTarget(TargetMap::Tcp);
            &&& layers.len() == 2
            &&& meets_before(layers, Layer::TcpForward, map)
        }),
{
    let layers = spec_stacks(config, local_identity, span_sink)[i].layers;
    next_is_met_first(layers, 0);
}

/// A request to an endpoint is upgraded and normalized, its required identity is
/// checked, the headers of identities are stripped, it is observed, and it is sent by a
/// client that is connected again when it fails.
pub proof fn endpoints_are_layered<A>(
    config: Config<A>,
    local_identity: Conditional<Name>,
    span_sink: bool,
    i: int,
)
    requires
        0 <= i < spec_stacks(config, local_identity, span_sink).len(),
        spec_stacks(config, local_identity, span_sink)[i].name == StackName::HttpEndpoint,
    ensures
        ({
            let layers = spec_stacks(config, local_identity, span_sink)[i].layers;
            let client = Layer::HttpClient(config.proxy.connect.h2_settings);
            let reconnect = Layer::Reconnect(config.proxy.connect.backoff);
            let trace = Layer::TraceContext(
                if span_sink {
                    Some(SpanKind::Client)
                } else {
                    None
                },
            );
            let strip_ip = Layer::StripHeader(Message::Response, Header::RemoteIp);
            let strip_server = Layer::StripHeader(Message::Response, Header::ServerId);
            let strip_required = Layer::StripHeader(Message::Request, Header::RequireId);
            let log = Layer::Log(LogContext::Endpoint);
            &&& layers.len() == 12
            &&& meets_before(layers, log, Layer::OrigProtoUpgrade)
            &&& meets_before(layers, Layer::OrigProtoUpgrade, Layer::NormalizeUri)
            &&& meets_before(layers, Layer::NormalizeUri, Layer::RequireIdentity)
            &&& meets_before(layers, Layer::RequireIdentity, strip_required)
            &&& meets_before(layers, strip_required, strip_server)
            &&& meets_before(layers, strip_server, strip_ip)
            &&& meets_before(layers, strip_ip, trace)
            &&& meets_before(layers, trace, Layer::EndpointMetrics)
            &&& meets_before(layers, Layer::EndpointMetrics, Layer::Tap)
            &&& meets_before(layers, Layer::Tap, reconnect)
            &&& meets_before(layers, reconnect, client)
        }),
{
    let layers = spec_stacks(config, local_identity, span_sink)[i].layers;
    next_is_met_first(layers, 0);
    next_is_met_first(layers, 1);
    next_is_met_first(layers, 2);
    next_is_met_first(layers, 3);
    next_is_met_first(layers, 4);
    next_is_met_first(layers, 5);
    next_is_met_first(layers, 6);
    next_is_met_first(layers, 7);
    next_is_met_first(layers, 8);
    next_is_met_first(layers, 9);
    next_is_met_first(layers, 10);
}

/// Balancers are cached, and each is shared: it balances over what discovery resolves,
/// which is driven to readiness on its own.
pub proof fn balancers_are_layered<A>(
    config: Config<A>,
    local_identity: Conditional<Name>,
    span_sink: bool,
    i: int,
)
    requires
        0 <= i < spec_stacks(config, local_identity, span_sink).len(),
        spec_stacks(config, local_identity, span_sink)[i].name == StackName::HttpBalancerCache,
    ensures
        ({
            let layers = spec_stacks(config, local_identity, span_sink)[i].layers;
            let discover = Layer::Discover {
                capacity: 10,
                max_idle_age: config.proxy.cache_max_idle_age,
            };
            let balance = Layer::Balance { default_rtt_millis: 30, decay_secs: 10 };
            let lock = Layer::Lock(LockError::Discovery);
            let cache = Layer::Cache {
                capacity: config.proxy.cache_capacity,
                max_idle_age: config.proxy.cache_max_idle_age,
            };
            let log = Layer::Log(LogContext::Balance);
            &&& layers.len() == 8
            &&& meets_before(layers, log, cache)
            &&& meets_before(layers, cache, lock)
            &&& meets_before(layers, lock, Layer::Pending)
            &&& meets_before(layers, Layer::Pending, balance)
            &&& meets_before(layers, balance, discover)
            &&& meets_before(layers, discover, Layer::SpawnReady)
            &&& meets_before(layers, Layer::SpawnReady, Layer::BoxRequest)
        }),
{
    let layers = spec_stacks(config, local_identity, span_sink)[i].layers;
    next_is_met_first(layers, 0);
    next_is_met_first(layers, 1);
    next_is_met_first(layers, 2);
    next_is_met_first(layers, 3);
    next_is_met_first(layers, 4);
    next_is_met_first(layers, 5);
    next_is_met_first(layers, 6);
}

/// Forwarders are cached by the endpoint that they forward to, and each is shared.
pub proof fn forwarders_are_layered<A>(
    config: Config<A>,
    local_identity: Conditional<Name>,
    span_sink: bool,
    i: int,
)
    requires
        0 <= i < spec_stacks(config, local_identity, span_sink).len(),
        spec_stacks(config, local_identity, span_sink)[i].name == StackName::HttpForwardCache,
    ensures
        ({
            let layers = spec_stacks(config, local_identity, span_sink)[i].layers;
            let lock = Layer::Lock(LockError::Opaque);
            let cache = Layer::Cache {
                capacity: config.proxy.cache_capacity,
                max_idle_age: config.proxy.cache_max_idle_age,
            };
            let log = Layer::Log(LogContext::Forward);
            let map = Layer::MapTarget(TargetMap::Forward);
            &&& layers.len() == 6
            &&& meets_before(layers, map, log)
            &&& meets_before(layers, log, cache)
            &&& meets_before(layers, cache, lock)
            &&& meets_before(layers, lock, Layer::Pending)
            &&& meets_before(layers, Layer::Pending, Layer::BoxRequest)
        }),
{
    let layers = spec_stacks(config, local_identity, span_sink)[i].layers;
    next_is_met_first(layers, 0);
    next_is_met_first(layers, 1);
    next_is_met_first(layers, 2);
    next_is_met_first(layers, 3);
    next_is_met_first(layers, 4);
}

/// The responses of a forwarder are of the type that a balancer's are.
pub proof fn forwarders_box_responses<A>(
    config: Config<A>,
    local_identity: Conditional<Name>,
    span_sink: bool,
    i: int,
)
    requires
        0 <= i < spec_stacks(config, local_identity, span_sink).len(),
        spec_stacks(config, local_identity, span_sink)[i].name == StackName::HttpForward,
    ensures
        ({
            let layers = spec_stacks(config, local_identity, span_sink)[i].layers;
            &&& layers.len() == 1
            &&& layers[0].layer == Layer::BoxedHttpResponse
        }),
{
}

/// Whether a concrete target falls back to a forwarder is decided once its balancer is
/// ready, or has failed to be.
pub proof fn concrete_targets_are_layered<A>(
    config: Config<A>,
    local_identity: Conditional<Name>,
    span_sink: bool,
    i: int,
)
    requires
        0 <= i < spec_stacks(config, local_identity, span_sink).len(),
        spec_stacks(config, local_identity, span_sink)[i].name == StackName::HttpConcrete,
    ensures
        ({
            let layers = spec_stacks(config, local_identity, span_sink)[i].layers;
            let map = Layer::MapTarget(TargetMap::Balance);
            let fallback = Layer::FallbackIfRejected(StackName::HttpForward);
            &&& layers.len() == 4
            &&& meets_before(layers, fallback, Layer::MakeReady)
            &&& meets_before(layers, Layer::MakeReady, Layer::BoxedHttpResponse)
            &&& meets_before(layers, Layer::BoxedHttpResponse, map)
        }),
{
    let layers = spec_stacks(config, local_identity, span_sink)[i].layers;
    next_is_met_first(layers, 0);
    next_is_met_first(layers, 1);
    next_is_met_first(layers, 2);
}

/// A request of a route is classified, and counted with the time that it may take, which
/// includes that of retries.
pub proof fn routes_are_layered<A>(
    config: Config<A>,
    local_identity: Conditional<Name>,
    span_sink: bool,
    i: int,
)
    requires
        0 <= i < spec_stacks(config, local_identity, span_sink).len(),
        spec_stacks(config, local_identity, span_sink)[i].name == StackName::HttpProfileRouteProxy,
    ensures
        ({
            let layers = spec_stacks(config, local_identity, span_sink)[i].layers;
            &&& layers.len() == 4
            &&& meets_before(layers, Layer::Classify, Layer::RouteMetrics)
            &&& meets_before(layers, Layer::RouteMetrics, Layer::RequestTimeout)
            &&& meets_before(layers, Layer::RequestTimeout, Layer::Retry)
        }),
{
    let layers = spec_stacks(config, local_identity, span_sink)[i].layers;
    next_is_met_first(layers, 0);
    next_is_met_first(layers, 1);
    next_is_met_first(layers, 2);
}

/// Profiles are recognized by logical target, cached and shared. A logical target is
/// made a concrete one before its profile may override it.
pub proof fn profiles_are_layered<A>(
    config: Config<A>,
    local_identity: Conditional<Name>,
    span_sink: bool,
    i: int,
)
    requires
        0 <= i < spec_stacks(config, local_identity, span_sink).len(),
        spec_stacks(config, local_identity, span_sink)[i].name
            == StackName::HttpLogicalProfileCache,
    ensures
        ({
            let layers = spec_stacks(config, local_identity, span_sink)[i].layers;
            let profiles = Layer::Profiles(StackName::HttpProfileRouteProxy);
            let map = Layer::MapTarget(TargetMap::Concrete);
            let lock = Layer::Lock(LockError::Discovery);
            let cache = Layer::Cache {
                capacity: config.proxy.cache_capacity,
                max_idle_age: config.proxy.cache_max_idle_age,
            };
            let log = Layer::Log(LogContext::Profile);
            let router = Layer::Router(Recognize::ProfilePerTarget);
            &&& layers.len() == 8
            &&& meets_before(layers, router, log)
            &&& meets_before(layers, log, cache)
            &&& meets_before(layers, cache, lock)
            &&& meets_before(layers, lock, Layer::Pending)
            &&& meets_before(layers, Layer::Pending, map)
            &&& meets_before(layers, map, profiles)
            &&& meets_before(layers, profiles, Layer::BoxRequest)
        }),
{
    let layers = spec_stacks(config, local_identity, span_sink)[i].layers;
    next_is_met_first(layers, 0);
    next_is_met_first(layers, 1);
    next_is_met_first(layers, 2);
    next_is_met_first(layers, 3);
    next_is_met_first(layers, 4);
    next_is_met_first(layers, 5);
    next_is_met_first(layers, 6);
}

/// Refinements of names are cached, and each is shared and awaited.
pub proof fn refinement_is_layered<A>(
    config: Config<A>,
    local_identity: Conditional<Name>,
    span_sink: bool,
    i: int,
)
    requires
        0 <= i < spec_stacks(config, local_identity, span_sink).len(),
        spec_stacks(config, local_identity, span_sink)[i].name == StackName::DnsRefineCache,
    ensures
        ({
            let layers = spec_stacks(config, local_identity, span_sink)[i].layers;
            let lock = Layer::Lock(LockError::Opaque);
            let cache = Layer::Cache {
                capacity: config.proxy.cache_capacity,
                max_idle_age: config.proxy.cache_max_idle_age,
            };
            let log = Layer::Log(LogContext::Canonicalize);
            &&& layers.len() == 5
            &&& meets_before(layers, Layer::Oneshot, Layer::MakeResponse)
            &&& meets_before(layers, Layer::MakeResponse, log)
            &&& meets_before(layers, log, cache)
            &&& meets_before(layers, cache, lock)
        }),
{
    let layers = spec_stacks(config, local_identity, span_sink)[i].layers;
    next_is_met_first(layers, 0);
    next_is_met_first(layers, 1);
    next_is_met_first(layers, 2);
    next_is_met_first(layers, 3);
}

/// A logical target without a profile is the concrete one.
pub proof fn targets_without_profiles_are_layered<A>(
    config: Config<A>,
    local_identity: Conditional<Name>,
    span_sink: bool,
    i: int,
)
    requires
        0 <= i < spec_stacks(config, local_identity, span_sink).len(),
        spec_stacks(config, local_identity, span_sink)[i].name == StackName::HttpLogicalConcrete,
    ensures
        ({
            let layers = spec_stacks(config, local_identity, span_sink)[i].layers;
            let map = Layer::MapTarget(TargetMap::Concrete);
            &&& layers.len() == 3
            &&& meets_before(layers, Layer::BoxedHttpRequest, Layer::BoxedHttpResponse)
            &&& meets_before(layers, Layer::BoxedHttpResponse, map)
        }),
{
    let layers = spec_stacks(config, local_identity, span_sink)[i].layers;
    next_is_met_first(layers, 0);
    next_is_met_first(layers, 1);
}

/// A request to a logical target loses the headers that the proxy may set, is given its
/// canonical name, says so, and falls back where there is no profile.
pub proof fn logical_targets_are_layered<A>(
    config: Config<A>,
    local_identity: Conditional<Name>,
    span_sink: bool,
    i: int,
)
    requires
        0 <= i < spec_stacks(config, local_identity, span_sink).len(),
        spec_stacks(config, local_identity, span_sink)[i].name == StackName::HttpLogicalRouter,
    ensures
        ({
            let layers = spec_stacks(config, local_identity, span_sink)[i].layers;
            let fallback = Layer::FallbackIfRejected(StackName::HttpLogicalConcrete);
            let canonical = Layer::HeaderFromTarget(Header::CanonicalDst);
            let canonicalize = Layer::Canonicalize {
                refine: StackName::DnsRefineCache,
                timeout: config.canonicalize_timeout,
            };
            let strip_client = Layer::StripHeader(Message::Request, Header::ClientId);
            let strip_override = Layer::StripHeader(Message::Request, Header::DstOverride);
            let log = Layer::Log(LogContext::Logical);
            &&& layers.len() == 8
            &&& meets_before(layers, log, strip_override)
            &&& meets_before(layers, strip_override, strip_client)
            &&& meets_before(layers, strip_client, canonicalize)
            &&& meets_before(layers, canonicalize, canonical)
            &&& meets_before(layers, canonical, fallback)
            &&& meets_before(layers, fallback, Layer::MakeReady)
            &&& meets_before(layers, Layer::MakeReady, Layer::BoxedHttpResponse)
        }),
{
    let layers = spec_stacks(config, local_identity, span_sink)[i].layers;
    next_is_met_first(layers, 0);
    next_is_met_first(layers, 1);
    next_is_met_first(layers, 2);
    next_is_met_first(layers, 3);
    next_is_met_first(layers, 4);
    next_is_met_first(layers, 5);
    next_is_met_first(layers, 6);
}

/// A request is timed, traced and answered in any case, shed if too many are in flight,
/// and then routed to a service that is acquired in time.
pub proof fn servers_are_layered<A>(
    config: Config<A>,
    local_identity: Conditional<Name>,
    span_sink: bool,
    i: int,
)
    requires
        0 <= i < spec_stacks(config, local_identity, span_sink).len(),
        spec_stacks(config, local_identity, span_sink)[i].name == StackName::HttpServer,
    ensures
        ({
            let layers = spec_stacks(config, local_identity, span_sink)[i].layers;
            let timeout = Layer::Timeout(config.proxy.service_acquisition_timeout);
            let router = Layer::Router(Recognize::LogicalPerRequest);
            let limit = Layer::ConcurrencyLimit(config.proxy.max_in_flight_requests);
            let trace = Layer::TraceContext(
                if span_sink {
                    Some(SpanKind::Server)
                } else {
                    None
                },
            );
            let log = Layer::Log(LogContext::Source);
            &&& layers.len() == 11
            &&& meets_before(layers, log, Layer::HandleTime)
            &&& meets_before(layers, Layer::HandleTime, trace)
            &&& meets_before(layers, trace, Layer::Errors)
            &&& meets_before(layers, Layer::Errors, Layer::LoadShed)
            &&& meets_before(layers, Layer::LoadShed, limit)
            &&& meets_before(layers, limit, Layer::Oneshot)
            &&& meets_before(layers, Layer::Oneshot, Layer::InsertTarget)
            &&& meets_before(layers, Layer::InsertTarget, router)
            &&& meets_before(layers, router, timeout)
            &&& meets_before(layers, timeout, Layer::MakeReady)
        }),
{
    let layers = spec_stacks(config, local_identity, span_sink)[i].layers;
    next_is_met_first(layers, 0);
    next_is_met_first(layers, 1);
    next_is_met_first(layers, 2);
    next_is_met_first(layers, 3);
    next_is_met_first(layers, 4);
    next_is_met_first(layers, 5);
    next_is_met_first(layers, 6);
    next_is_met_first(layers, 7);
    next_is_met_first(layers, 8);
    next_is_met_first(layers, 9);
}

} // verus!
