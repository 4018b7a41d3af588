//! The labels under which the proxy reports its traffic.
use crate::endpoint::{HttpEndpoint, Protocol, Target, TcpEndpoint};
use crate::identity::{Conditional, Name};
use std::collections::HashMap;
use vstd::prelude::*;

verus! {

/// Whether a transport was established by the proxy or accepted by it.
#[derive(Clone, Copy, Debug, PartialEq, Eq, Structural)]
pub enum Side {
    Connect,
    Accept,
}

/// The labels of a transport.
#[derive(Debug, PartialEq, Eq)]
pub struct Key<'a> {
    pub side: Side,
    pub direction: &'static str,
    pub identity: Conditional<&'a Name>,
}

impl<'a> Key<'a> {
    /// Whether this is the label of an outbound transport on the given side, with
    /// the given identity.
    pub open spec fn labels(self, side: Side, identity: Conditional<Name>) -> bool {
        &&& self.side == side
        &&& self.direction@ == "outbound"@
        &&& match identity {
            Conditional::Identity(name) => self.identity == Conditional::Identity(&name),
            Conditional::NoIdentity(reason) => self.identity
                == Conditional::<&Name>::NoIdentity(reason),
        }
    }
}

/// Labels the transports to or from a `T`.
pub trait LabelTransport<T> {
    /// The side that the proxy has of a transport.
    spec fn side(&self) -> Side;

    /// The identity of the peer of a transport.
    spec fn peer(&self, transport: T) -> Conditional<Name>;

    fn transport_labels<'a>(&self, transport: &'a T) -> (key: Key<'a>)
        ensures
            key.labels(self.side(), self.peer(*transport)),
    ;
}

/// Labels the transports of the outbound proxy.
#[derive(Clone, Copy, Debug)]
pub struct TransportLabels;

impl LabelTransport<Target<HttpEndpoint>> for TransportLabels {
    open spec fn side(&self) -> Side {
        Side::Connect
    }

    open spec fn peer(&self, endpoint: Target<HttpEndpoint>) -> Conditional<Name> {
        endpoint.inner.identity
    }

    fn transport_labels<'a>(&self, endpoint: &'a Target<HttpEndpoint>) -> (key: Key<'a>) {
        Key {
            side: Side::Connect,
            direction: "outbound",
            identity: endpoint.inner.identity.as_ref(),
        }
    }
}

impl LabelTransport<TcpEndpoint> for TransportLabels {
    open spec fn side(&self) -> Side {
        Side::Connect
    }

    open spec fn peer(&self, endpoint: TcpEndpoint) -> Conditional<Name> {
        endpoint.identity
    }

    fn transport_labels<'a>(&self, endpoint: &'a TcpEndpoint) -> (key: Key<'a>) {
        Key { side: Side::Connect, direction: "outbound", identity: endpoint.identity.as_ref() }
    }
}

impl LabelTransport<Protocol> for TransportLabels {
    open spec fn side(&self) -> Side {
        Side::Accept
    }

    open spec fn peer(&self, protocol: Protocol) -> Conditional<Name> {
        protocol.tls.peer_identity
    }

    fn transport_labels<'a>(&self, protocol: &'a Protocol) -> (key: Key<'a>) {
        Key {
            side: Side::Accept,
            direction: "outbound",
            identity: protocol.tls.peer_identity.as_ref(),
        }
    }
}

/// The labels of every span that the outbound proxy exports.
pub open spec fn spec_trace_labels() -> Map<Seq<char>, Seq<char>> {
    map!["direction"@ => "outbound"@]
}

/// `std::collections::HashMap::insert` on string keys, which vstd specifies for
/// other keys only: the key is mapped to the value, every other key to what it was
/// mapped to before, and the value that the key was mapped to is handed back, if
/// there was one.
#[verifier::external_body]
fn insert_label(labels: &mut HashMap<String, String>, key: String, value: String) -> (replaced:
    Option<String>)
    ensures
        final(labels).deep_view() == old(labels).deep_view().insert(key@, value@),
        match replaced {
            Some(before) => old(labels).deep_view().contains_key(key@)
                && old(labels).deep_view()[key@] == before@,
            None => !old(labels).deep_view().contains_key(key@),
        },
{
    labels.insert(key, value)
}

/// Labels the spans of the outbound proxy.
pub fn trace_labels() -> (labels: HashMap<String, String>)
    ensures
        labels.deep_view() == spec_trace_labels(),
{
    let mut labels: HashMap<String, String> = HashMap::new();
    proof {
        vstd::std_specs::hash::lemma_hashmap_deepview_dom(labels);
        assert(labels.deep_view() =~= Map::<Seq<char>, Seq<char>>::empty());
    }
    insert_label(&mut labels, "direction".to_string(), "outbound".to_string());
    labels
}

} // verus!
