//! The configuration of the outbound proxy.
use crate::addr::SocketAddr;
use std::time::Duration;
use vstd::prelude::*;

verus! {

/// How the proxy's listener is bound.
///
/// `A` is what recovers the original destination of an accepted connection.
#[derive(Debug, PartialEq, Eq)]
pub struct Bind<A> {
    pub bind_addr: SocketAddr,
    pub keepalive: Option<Duration>,
    pub orig_dst_addr: A,
}

/// The flow-control windows of HTTP/2 connections.
#[derive(Clone, Copy, Debug, PartialEq, Eq)]
pub struct H2Settings {
    pub initial_stream_window_size: Option<u32>,
    pub initial_connection_window_size: Option<u32>,
}

/// How the delay between attempts to connect grows.
#[derive(Clone, Copy, Debug, PartialEq, Eq)]
pub struct Backoff {
    pub min: Duration,
    pub max: Duration,
    /// The ratio of a delay by which it may vary, as the bits of a double.
    pub jitter_bits: u64,
}

/// How the proxy accepts connections.
#[derive(Debug, PartialEq, Eq)]
pub struct ServerConfig<A> {
    pub bind: Bind<A>,
    pub h2_settings: H2Settings,
}

/// How the proxy establishes connections.
#[derive(Clone, Copy, Debug, PartialEq, Eq)]
pub struct ConnectConfig {
    pub backoff: Backoff,
    pub timeout: Duration,
    pub keepalive: Option<Duration>,
    pub h2_settings: H2Settings,
}

/// What every proxy is configured with.
#[derive(Debug, PartialEq, Eq)]
pub struct ProxyConfig<A> {
    pub server: ServerConfig<A>,
    pub connect: ConnectConfig,
    pub cache_capacity: usize,
    pub cache_max_idle_age: Duration,
    pub disable_protocol_detection_for_ports: Vec<u16>,
    pub service_acquisition_timeout: Duration,
    pub max_in_flight_requests: usize,
}

/// What the outbound proxy is configured with.
#[derive(Debug, PartialEq, Eq)]
pub struct Config<A> {
    pub proxy: ProxyConfig<A>,
    pub canonicalize_timeout: Duration,
}

impl<A: Clone> Clone for Bind<A> {
    fn clone(&self) -> (bind: Self)
        ensures
            bind.bind_addr == self.bind_addr,
            bind.keepalive == self.keepalive,
            cloned(self.orig_dst_addr, bind.orig_dst_addr),
    {
        Bind {
            bind_addr: self.bind_addr,
            keepalive: self.keepalive,
            orig_dst_addr: self.orig_dst_addr.clone(),
        }
    }
}

impl<A: Clone> Clone for ServerConfig<A> {
    fn clone(&self) -> (server: Self)
        ensures
            cloned(self.bind, server.bind),
            server.h2_settings == self.h2_settings,
    {
        ServerConfig { bind: self.bind.clone(), h2_settings: self.h2_settings }
    }
}

impl<A: Clone> Clone for ProxyConfig<A> {
    fn clone(&self) -> (proxy: Self)
        ensures
            cloned(self.server, proxy.server),
            proxy.connect == self.connect,
            proxy.cache_capacity == self.cache_capacity,
            proxy.cache_max_idle_age == self.cache_max_idle_age,
            proxy.disable_protocol_detection_for_ports@
                == self.disable_protocol_detection_for_ports@,
            proxy.service_acquisition_timeout == self.service_acquisition_timeout,
            proxy.max_in_flight_requests == self.max_in_flight_requests,
    {
        let ports = self.disable_protocol_detection_for_ports.clone();
        assert(ports@ =~= self.disable_protocol_detection_for_ports@);
        ProxyConfig {
            server: self.server.clone(),
            connect: self.connect,
            cache_capacity: self.cache_capacity,
            cache_max_idle_age: self.cache_max_idle_age,
            disable_protocol_detection_for_ports: ports,
            service_acquisition_timeout: self.service_acquisition_timeout,
            max_in_flight_requests: self.max_in_flight_requests,
        }
    }
}

impl<A: Clone> Clone for Config<A> {
    fn clone(&self) -> (config: Self)
        ensures
            cloned(self.proxy, config.proxy),
            config.canonicalize_timeout == self.canonicalize_timeout,
    {
        Config { proxy: self.proxy.clone(), canonicalize_timeout: self.canonicalize_timeout }
    }
}

impl Backoff {
    /// Decides whether to connect again after a failure, and if so with which
    /// delays: always, and with the configured ones.
    pub fn after<E>(&self, failure: &E) -> (recover: Result<Backoff, E>)
        ensures
            recover == Ok::<Backoff, E>(*self),
    {
        Ok(*self)
    }
}

impl<A> ProxyConfig<A> {
    /// This configuration, but for what recovers original destinations.
    pub open spec fn spec_with_orig_dst_addr<B>(self, orig_dst_addr: B) -> ProxyConfig<B> {
        ProxyConfig {
            server: ServerConfig {
                bind: Bind {
                    bind_addr: self.server.bind.bind_addr,
                    keepalive: self.server.bind.keepalive,
                    orig_dst_addr,
                },
                h2_settings: self.server.h2_settings,
            },
            connect: self.connect,
            cache_capacity: self.cache_capacity,
            cache_max_idle_age: self.cache_max_idle_age,
            disable_protocol_detection_for_ports: self.disable_protocol_detection_for_ports,
            service_acquisition_timeout: self.service_acquisition_timeout,
            max_in_flight_requests: self.max_in_flight_requests,
        }
    }

    /// Replaces what recovers original destinations, and keeps the rest.
    pub fn with_orig_dst_addr<B>(self, orig_dst_addr: B) -> (proxy: ProxyConfig<B>)
        ensures
            proxy == self.spec_with_orig_dst_addr(orig_dst_addr),
    {
        ProxyConfig {
            server: ServerConfig {
                bind: Bind {
                    bind_addr: self.server.bind.bind_addr,
                    keepalive: self.server.bind.keepalive,
                    orig_dst_addr,
                },
                h2_settings: self.server.h2_settings,
            },
            connect: self.connect,
            cache_capacity: self.cache_capacity,
            cache_max_idle_age: self.cache_max_idle_age,
            disable_protocol_detection_for_ports: self.disable_protocol_detection_for_ports,
            service_acquisition_timeout: self.service_acquisition_timeout,
            max_in_flight_requests: self.max_in_flight_requests,
        }
    }
}

impl<A> Config<A> {
    /// This configuration, but for what recovers original destinations.
    pub open spec fn spec_with_orig_dst_addr<B>(self, orig_dst_addr: B) -> Config<B> {
        Config {
            proxy: self.proxy.spec_with_orig_dst_addr(orig_dst_addr),
            canonicalize_timeout: self.canonicalize_timeout,
        }
    }

    /// Replaces what recovers original destinations, and keeps the rest.
    pub fn with_orig_dst_addr<B>(self, orig_dst_addr: B) -> (config: Config<B>)
        ensures
            config == self.spec_with_orig_dst_addr(orig_dst_addr),
    {
        Config {
            proxy: self.proxy.with_orig_dst_addr(orig_dst_addr),
            canonicalize_timeout: self.canonicalize_timeout,
        }
    }
}

} // verus!
