//! Configures the outbound proxy.
//!
//! The outbound proxy is responsible for routing traffic from the local
//! application to external network endpoints.
//!
//! [`Config::build`] decides what the proxy is assembled from: which layers each of
//! its stacks has, in which order and with which parameters. [`promises`] proves what
//! each part is made of, and [`laws`] what that makes of the requests that the proxy
//! is sent.
pub mod addr;
pub mod config;
pub mod discovery;
pub mod endpoint;
pub mod identity;
pub mod labels;
pub mod laws;
pub mod layer;
pub mod outbound;
pub mod plan;
pub mod promises;
pub mod route;
pub mod target;

pub use crate::config::Config;
pub use crate::endpoint::{Concrete, HttpEndpoint, Logical, Profile, Target, TcpEndpoint};
pub use crate::labels::trace_labels;
pub use crate::outbound::Outbound;
