//! The targets that are met along a stack: what each map makes of one, and what
//! each log context shows of one.
use crate::addr::{Addr, SocketAddr};
use crate::endpoint::{balance_target, concrete_target, forward_target, tcp_target};
use crate::endpoint::{spec_balance_target, spec_concrete_target, spec_forward_target};
use crate::endpoint::{Concrete, HttpEndpoint, Logical, Meta, Profile, Settings, Target};
use crate::identity::{Conditional, Name};
use crate::layer::{LogContext, TargetMap};
use vstd::prelude::*;

verus! {

/// A target that some stack is asked for.
#[derive(Debug, PartialEq, Eq)]
pub enum AnyTarget {
    /// An accepted connection.
    Accepted(Meta),
    /// A logical target.
    Logical(Logical<HttpEndpoint>),
    /// A service profile.
    Profile(Profile),
    /// A concrete target.
    Concrete(Concrete<HttpEndpoint>),
    /// What a balancer is shared by.
    Balanced(Concrete<Settings>),
    /// An endpoint that requests are forwarded to.
    Endpoint(Target<HttpEndpoint>),
    /// The address that a TCP stream is forwarded to.
    Tcp(SocketAddr),
    /// A name that is refined.
    DnsName(String),
}

impl TargetMap {
    /// What a map makes of a target, if it is a target that the map is for.
    pub open spec fn spec_apply(self, target: AnyTarget) -> Option<AnyTarget> {
        match (self, target) {
            (TargetMap::Tcp, AnyTarget::Accepted(meta)) => Some(AnyTarget::Tcp(meta.target_addr)),
            (TargetMap::Forward, AnyTarget::Concrete(concrete)) => Some(
                AnyTarget::Endpoint(spec_forward_target(concrete)),
            ),
            (TargetMap::Balance, AnyTarget::Concrete(concrete)) => Some(
                AnyTarget::Balanced(spec_balance_target(concrete)),
            ),
            (TargetMap::Concrete, AnyTarget::Logical(logical)) => Some(
                AnyTarget::Concrete(spec_concrete_target(logical)),
            ),
            _ => None,
        }
    }

    /// Makes the target of a stack of the one that it is asked for.
    pub fn apply(self, target: AnyTarget) -> (made: Option<AnyTarget>)
        ensures
            made == self.spec_apply(target),
    {
        match (self, target) {
            (TargetMap::Tcp, AnyTarget::Accepted(meta)) => Some(AnyTarget::Tcp(tcp_target(&meta))),
            (TargetMap::Forward, AnyTarget::Concrete(concrete)) => Some(
                AnyTarget::Endpoint(forward_target(concrete)),
            ),
            (TargetMap::Balance, AnyTarget::Concrete(concrete)) => Some(
                AnyTarget::Balanced(balance_target(concrete)),
            ),
            (TargetMap::Concrete, AnyTarget::Logical(logical)) => Some(
                AnyTarget::Concrete(concrete_target(logical)),
            ),
            _ => None,
        }
    }
}

/// An address that a log context shows.
#[derive(Debug, PartialEq, Eq)]
pub enum LogAddr<'a> {
    Addr(&'a Addr),
    Socket(SocketAddr),
    Name(&'a String),
}

/// What a log context shows.
#[derive(Debug, PartialEq, Eq)]
pub struct LogFields<'a> {
    pub addr: Option<LogAddr<'a>>,
    /// The identity of the peer.
    pub id: Option<&'a Conditional<Name>>,
}

impl LogContext {
    /// What a context shows of a target, if it is a target that the context is for.
    ///
    /// An endpoint is shown by the address that it is connected to, while one that
    /// requests are forwarded to is shown by the address that it is known by.
    pub open spec fn spec_fields<'a>(self, target: &'a AnyTarget) -> Option<LogFields<'a>> {
        match (self, target) {
            (LogContext::Endpoint, AnyTarget::Endpoint(endpoint)) => Some(
                LogFields {
                    addr: Some(LogAddr::Socket(endpoint.inner.addr)),
                    id: Some(&endpoint.inner.identity),
                },
            ),
            (LogContext::Balance, AnyTarget::Balanced(concrete)) => Some(
                LogFields { addr: Some(LogAddr::Addr(&concrete.addr)), id: None },
            ),
            (LogContext::Forward, AnyTarget::Endpoint(endpoint)) => Some(
                LogFields {
                    addr: Some(LogAddr::Addr(&endpoint.addr)),
                    id: Some(&endpoint.inner.identity),
                },
            ),
            (LogContext::Profile, AnyTarget::Profile(_)) => Some(
                LogFields { addr: None, id: None },
            ),
            (LogContext::Canonicalize, AnyTarget::DnsName(name)) => Some(
                LogFields { addr: Some(LogAddr::Name(name)), id: None },
            ),
            (LogContext::Logical, AnyTarget::Logical(logical)) => Some(
                LogFields { addr: Some(LogAddr::Addr(&logical.addr)), id: None },
            ),
            (LogContext::Source, AnyTarget::Accepted(meta)) => Some(
                LogFields { addr: Some(LogAddr::Socket(meta.target_addr)), id: None },
            ),
            _ => None,
        }
    }

    /// Shows of a target what belongs into the context.
    pub fn fields<'a>(self, target: &'a AnyTarget) -> (fields: Option<LogFields<'a>>)
        ensures
            fields == self.spec_fields(target),
    {
        match (self, target) {
            (LogContext::Endpoint, AnyTarget::Endpoint(endpoint)) => Some(
                LogFields {
                    addr: Some(LogAddr::Socket(endpoint.inner.addr)),
                    id: Some(&endpoint.inner.identity),
                },
            ),
            (LogContext::Balance, AnyTarget::Balanced(concrete)) => Some(
                LogFields { addr: Some(LogAddr::Addr(&concrete.addr)), id: None },
            ),
            (LogContext::Forward, AnyTarget::Endpoint(endpoint)) => Some(
                LogFields {
                    addr: Some(LogAddr::Addr(&endpoint.addr)),
                    id: Some(&endpoint.inner.identity),
                },
            ),
            (LogContext::Profile, AnyTarget::Profile(_)) => Some(
                LogFields { addr: None, id: None },
            ),
            (LogContext::Canonicalize, AnyTarget::DnsName(name)) => Some(
                LogFields { addr: Some(LogAddr::Name(name)), id: None },
            ),
            (LogContext::Logical, AnyTarget::Logical(logical)) => Some(
                LogFields { addr: Some(LogAddr::Addr(&logical.addr)), id: None },
            ),
            (LogContext::Source, AnyTarget::Accepted(meta)) => Some(
                LogFields { addr: Some(LogAddr::Socket(tcp_target(meta))), id: None },
            ),
            _ => None,
        }
    }
}

} // verus!
