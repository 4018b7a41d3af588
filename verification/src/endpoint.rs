//! What requests and connections are routed to, and how one target is made of
//! another.
use crate::addr::{Addr, SocketAddr};
use crate::identity::{Conditional, Name};
use vstd::prelude::*;

verus! {

/// Something to route to, with the address that it is known by.
#[derive(Debug, PartialEq, Eq)]
pub struct Target<T> {
    pub addr: Addr,
    pub inner: T,
}

/// A target as the application addressed it.
pub type Logical<T> = Target<T>;

/// A target as it is to be resolved, which a service profile may have
/// overridden.
pub type Concrete<T> = Target<Logical<T>>;

/// What a service profile is looked up by, and shared by all requests that it
/// configures.
#[derive(Debug, PartialEq, Eq)]
pub struct Profile {
    pub addr: Addr,
}

/// The HTTP settings that a client of an endpoint uses.
#[derive(Clone, Copy, Debug, PartialEq, Eq)]
pub enum Settings {
    Http1 { keep_alive: bool, wants_h1_upgrade: bool, was_absolute_form: bool },
    Http2,
}

/// A peer that speaks HTTP.
#[derive(Debug, PartialEq, Eq)]
pub struct HttpEndpoint {
    pub addr: SocketAddr,
    pub settings: Settings,
    pub identity: Conditional<Name>,
}

/// A peer that TCP streams are forwarded to.
#[derive(Debug, PartialEq, Eq)]
pub struct TcpEndpoint {
    pub addr: SocketAddr,
    pub identity: Conditional<Name>,
}

/// An accepted connection.
#[derive(Debug, PartialEq, Eq)]
pub struct Meta {
    pub peer_identity: Conditional<Name>,
    /// The address that the peer meant to reach.
    pub target_addr: SocketAddr,
}

/// An accepted connection whose protocol has been detected.
#[derive(Debug, PartialEq, Eq)]
pub struct Protocol {
    pub tls: Meta,
}

impl<T> Target<T> {
    /// Replaces what is routed to by what `f` makes of it.
    pub fn map<U, F: FnOnce(T) -> U>(self, f: F) -> (target: Target<U>)
        requires
            f.requires((self.inner,)),
        ensures
            target.addr == self.addr,
            f.ensures((self.inner,), target.inner),
    {
        Target { addr: self.addr, inner: f(self.inner) }
    }
}

/// The concrete target of a logical one that no service profile has overridden.
pub open spec fn spec_concrete_target<T>(logical: Logical<T>) -> Concrete<T> {
    Target { addr: logical.addr, inner: logical }
}

/// Uses a logical target as a concrete one.
pub fn concrete_target<T>(logical: Logical<T>) -> (concrete: Concrete<T>)
    ensures
        concrete == spec_concrete_target(logical),
{
    Target { addr: logical.addr.clone(), inner: logical }
}

/// What a balancer is shared by: the two addresses of a concrete target, and the
/// settings of its endpoint.
pub open spec fn spec_balance_target(concrete: Concrete<HttpEndpoint>) -> Concrete<Settings> {
    Target {
        addr: concrete.addr,
        inner: Target { addr: concrete.inner.addr, inner: concrete.inner.inner.settings },
    }
}

/// Leaves of an endpoint its settings.
fn endpoint_settings(endpoint: HttpEndpoint) -> (settings: Settings)
    ensures
        settings == endpoint.settings,
{
    endpoint.settings
}

/// Leaves of a logical target the settings of its endpoint.
fn logical_settings(logical: Logical<HttpEndpoint>) -> (settings: Logical<Settings>)
    ensures
        settings.addr == logical.addr,
        settings.inner == logical.inner.settings,
{
    logical.map(endpoint_settings)
}

/// Leaves of a concrete target what the balancer is to be shared by.
pub fn balance_target(concrete: Concrete<HttpEndpoint>) -> (target: Concrete<Settings>)
    ensures
        target == spec_balance_target(concrete),
{
    concrete.map(logical_settings)
}

/// The endpoint that the application selected, under the concrete address.
pub open spec fn spec_forward_target(concrete: Concrete<HttpEndpoint>) -> Target<HttpEndpoint> {
    Target { addr: concrete.addr, inner: concrete.inner.inner }
}

/// Leaves of a concrete target the endpoint that the application selected.
pub fn forward_target(concrete: Concrete<HttpEndpoint>) -> (target: Target<HttpEndpoint>)
    ensures
        target == spec_forward_target(concrete),
{
    Target { addr: concrete.addr, inner: concrete.inner.inner }
}

/// The address that an undetected TCP stream is forwarded to.
pub fn tcp_target(meta: &Meta) -> (addr: SocketAddr)
    ensures
        addr == meta.target_addr,
{
    meta.target_addr
}

} // verus!
