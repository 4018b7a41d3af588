//! Builds the outbound proxy.
use crate::addr::SocketAddr;
use crate::config::Config;
use crate::identity::{Conditional, Name};
use crate::plan::{plan, spec_plan, Plan};
use vstd::prelude::*;

verus! {

/// The outbound proxy, bound to an address and ready to be served.
#[derive(Debug)]
pub struct Outbound {
    pub listen_addr: SocketAddr,
    /// What the proxy is assembled from when it is first served.
    ///
    /// Nothing is assembled before, since caches spawn tasks, which are to run
    /// where the proxy does.
    pub serve: Plan,
}

impl<A> Config<A> {
    /// Builds the proxy on a listener.
    ///
    /// `bound` is the address that the listener was bound to, or why it could not
    /// be bound. `local_identity` is what connections to peers are established as,
    /// and `span_sink` is whether there is a sink for spans.
    pub fn build<E>(
        self,
        local_identity: Conditional<Name>,
        span_sink: bool,
        bound: Result<SocketAddr, E>,
    ) -> (outbound: Result<Outbound, E>)
        ensures
            match (bound, outbound) {
                (Ok(listen_addr), Ok(outbound)) => {
                    &&& outbound.listen_addr == listen_addr
                    &&& outbound.serve@ == spec_plan(self, local_identity, span_sink)
                },
                (Err(err), Err(failure)) => failure == err,
                _ => false,
            },
    {
        match bound {
            Ok(listen_addr) => Ok(
                Outbound { listen_addr, serve: plan(self, local_identity, span_sink) },
            ),
            Err(err) => Err(err),
        }
    }
}

} // verus!
