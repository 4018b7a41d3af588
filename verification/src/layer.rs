//! The layers that the proxy's stacks are made of.
use crate::config::{Backoff, H2Settings};
use crate::identity::{Conditional, Name};
use std::time::Duration;
use vstd::prelude::*;

verus! {

/// The headers that the proxy sets, reads or strips.
#[derive(Clone, Copy, Debug, PartialEq, Eq, Structural)]
pub enum Header {
    /// The canonical name of a request's destination.
    CanonicalDst,
    /// The destination that a request asks for in place of its own.
    DstOverride,
    /// The identity of a client.
    ClientId,
    /// The address of the remote peer of a response.
    RemoteIp,
    /// The identity that a client requires of its peer.
    RequireId,
    /// The identity of the server of a response.
    ServerId,
}

/// One of the two messages of an exchange.
#[derive(Clone, Copy, Debug, PartialEq, Eq, Structural)]
pub enum Message {
    Request,
    Response,
}

/// The part that the proxy plays in the spans that it exports.
#[derive(Clone, Copy, Debug, PartialEq, Eq, Structural)]
pub enum SpanKind {
    Client,
    Server,
}

/// A context that log messages are emitted in.
///
/// [`LogContext::fields`] is what a context shows of a target.
#[derive(Clone, Copy, Debug, PartialEq, Eq, Structural)]
pub enum LogContext {
    Endpoint,
    Balance,
    Forward,
    Profile,
    Canonicalize,
    Logical,
    Source,
}

/// How the target of a stack is made of the target that it is asked for.
///
/// [`TargetMap::apply`] is what a map makes of a target.
#[derive(Clone, Copy, Debug, PartialEq, Eq, Structural)]
pub enum TargetMap {
    /// [`crate::endpoint::tcp_target`]
    Tcp,
    /// [`crate::endpoint::forward_target`]
    Forward,
    /// [`crate::endpoint::balance_target`]
    Balance,
    /// [`crate::endpoint::concrete_target`]
    Concrete,
}

/// How a router tells the target of what it routes.
#[derive(Clone, Copy, Debug, PartialEq, Eq, Structural)]
pub enum Recognize {
    /// Each request has its logical target.
    LogicalPerRequest,
    /// Each logical target has its profile.
    ProfilePerTarget,
}

/// How the failures of a shared service are reported to those who share it.
#[derive(Clone, Copy, Debug, PartialEq, Eq, Structural)]
pub enum LockError {
    /// Without telling them apart.
    Opaque,
    /// Classified as a [`crate::discovery::DiscoveryError`].
    Discovery,
}

/// The stacks of the proxy.
#[derive(Clone, Copy, Debug, PartialEq, Eq, Structural)]
pub enum StackName {
    TcpConnect,
    TcpForward,
    HttpEndpoint,
    HttpBalancerCache,
    HttpForwardCache,
    HttpForward,
    HttpConcrete,
    HttpProfileRouteProxy,
    HttpLogicalProfileCache,
    DnsRefineCache,
    HttpLogicalConcrete,
    HttpLogicalRouter,
    HttpServer,
}

/// A layer of a stack.
#[derive(Debug, PartialEq, Eq)]
pub enum Layer {
    /// Initiates mTLS, if the target is configured with an identity, as the given
    /// local identity.
    TlsClient(Conditional<Name>),
    /// Limits how long a service may take to be made.
    Timeout(Duration),
    /// Counts the connections that are established, by their transport labels.
    TransportMetrics,
    /// Makes the stack's target of the one it is asked for.
    MapTarget(TargetMap),
    /// Copies bytes between an accepted connection and a new one.
    TcpForward,
    /// Initiates an HTTP client on the underlying transport.
    HttpClient(H2Settings),
    /// Establishes a connection anew when the client fails, whatever the failure
    /// was: [`Backoff::after`] is how long to wait.
    Reconnect(Backoff),
    /// Exposes requests and responses to taps.
    Tap,
    /// Records metrics per endpoint.
    EndpointMetrics,
    /// Exports spans of the given kind, if spans are exported.
    TraceContext(Option<SpanKind>),
    /// Removes a header from a message.
    StripHeader(Message, Header),
    /// Checks that the identity that a client requires is the endpoint's.
    RequireIdentity,
    /// Brings the URI of a request into its proper form.
    NormalizeUri,
    /// Carries HTTP/1 requests over HTTP/2 connections.
    OrigProtoUpgrade,
    /// Erases the type of request bodies.
    BoxRequest,
    /// Erases the type of requests.
    BoxedHttpRequest,
    /// Erases the type of responses.
    BoxedHttpResponse,
    /// Drives services to readiness on a task of their own.
    SpawnReady,
    /// Resolves targets on a background task, and makes an endpoint of the metadata
    /// of each address that a target is resolved to. `capacity` updates may be
    /// pending; the task fails if none is consumed for `max_idle_age`.
    Discover { capacity: usize, max_idle_age: Duration },
    /// Balances requests over endpoints by their moving average latency.
    Balance { default_rtt_millis: u64, decay_secs: u64 },
    /// Lets a service be used before it has been made.
    Pending,
    /// Shares a service.
    Lock(LockError),
    /// Keeps up to `capacity` services, each until it has not been used for
    /// `max_idle_age`.
    Cache { capacity: usize, max_idle_age: Duration },
    /// Waits until a service that has been made is ready.
    MakeReady,
    /// Uses another stack where this one fails because discovery was rejected.
    FallbackIfRejected(StackName),
    /// Sets an optional retry policy.
    Retry,
    /// Sets an optional request timeout.
    RequestTimeout,
    /// Records metrics per route.
    RouteMetrics,
    /// Sets the response classifier of a route as a request extension.
    Classify,
    /// Configures routes, each by the given stack, and concrete targets from the
    /// service profile of a target.
    Profiles(StackName),
    /// Routes by target.
    Router(Recognize),
    /// Awaits the response of a service that was made for one.
    MakeResponse,
    /// Makes a service ready only once there is a request for it.
    Oneshot,
    /// Sets a header from the target's address.
    HeaderFromTarget(Header),
    /// Replaces the target's name by its canonical form, which the given stack
    /// refines it to, unless that takes longer than `timeout`.
    Canonicalize { refine: StackName, timeout: Duration },
    /// Limits the number of requests that are in flight.
    ConcurrencyLimit(usize),
    /// Fails requests while the service is not ready.
    LoadShed,
    /// Synthesizes responses for the proxy's errors.
    Errors,
    /// Records how long the proxy handles a request.
    HandleTime,
    /// Adds the target that the stack below is asked for to each request.
    InsertTarget,
    /// Logs in a context.
    Log(LogContext),
}

/// What a layer is applied to.
#[derive(Clone, Copy, Debug, PartialEq, Eq, Structural)]
pub enum Scope {
    /// What makes services.
    Make,
    /// Each service that is made.
    Service,
}

/// A layer that has been pushed onto a stack.
#[derive(Debug, PartialEq, Eq)]
pub struct Push {
    pub scope: Scope,
    pub layer: Layer,
}

pub open spec fn spec_make(layer: Layer) -> Push {
    Push { scope: Scope::Make, layer }
}

/// Applies a layer to what makes services.
#[verifier::when_used_as_spec(spec_make)]
pub fn make(layer: Layer) -> (push: Push)
    ensures
        push == spec_make(layer),
{
    Push { scope: Scope::Make, layer }
}

pub open spec fn spec_each(layer: Layer) -> Push {
    Push { scope: Scope::Service, layer }
}

/// Applies a layer to each service that is made.
#[verifier::when_used_as_spec(spec_each)]
pub fn each(layer: Layer) -> (push: Push)
    ensures
        push == spec_each(layer),
{
    Push { scope: Scope::Service, layer }
}

/// What a stack is built on.
#[derive(Clone, Copy, Debug, PartialEq, Eq)]
pub enum Base {
    /// Establishes TCP connections.
    Connect { keepalive: Option<Duration> },
    /// Refines DNS names.
    DnsRefine,
    /// Passes requests on to the service that a profile is applied to.
    Proxies,
    /// Another stack.
    Stack(StackName),
}

/// A stack: what it is built on, and the layers on it in the order in which they
/// are pushed.
///
/// The layer that was pushed last is the outermost, so a request meets it before any
/// other. This is how layers are nested, whatever their scopes are: a layer on what
/// makes services acts when a service is made, and one on each service acts when
/// that service is called, so between the two the order of nesting need not be the
/// order in time.
#[derive(Debug, PartialEq, Eq)]
pub struct Stack {
    pub name: StackName,
    pub base: Base,
    pub layers: Vec<Push>,
}

/// A stack, with its layers as a sequence.
#[verifier::ext_equal]
pub ghost struct StackView {
    pub name: StackName,
    pub base: Base,
    pub layers: Seq<Push>,
}

impl View for Stack {
    type V = StackView;

    open spec fn view(&self) -> StackView {
        StackView { name: self.name, base: self.base, layers: self.layers@ }
    }
}

} // verus!
