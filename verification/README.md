# outbound

The outbound proxy routes traffic from the local application to external network
endpoints. This crate decides, with proofs, what the proxy is assembled from and what
becomes of its requests.

- `src/config.rs`, `src/addr.rs`, `src/identity.rs`, `src/endpoint.rs`: the values that
  the proxy is configured with and routes to, and how one target is made of another.
- `src/target.rs`: the targets met along a stack, what each map makes of one, and what
  each log context shows of one.
- `src/discovery.rs`: failures of discovery, and which of them are recovered from.
- `src/labels.rs`: the labels of transports and of exported spans.
- `src/layer.rs`, `src/plan.rs`, `src/outbound.rs`: the layers of the proxy's stacks and
  how they are composed; `Config::build` is the entry.
- `src/route.rs`, `src/laws.rs`: the layers that a request meets on its way to a peer,
  the targets that it is routed to, and what holds of every way.
- `app/`: assembles a plan of the services of a platform, and serves it.
