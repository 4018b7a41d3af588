//! The layers that a request meets on its way to a peer.
use crate::addr::Addr;
use crate::discovery::{DiscoveryError, Error};
use crate::endpoint::{Concrete, HttpEndpoint, Logical, Profile, Settings, Target};
use crate::layer::{Base, Layer, Push, Recognize, Scope, Stack, StackName, StackView};
use crate::target::AnyTarget;
use vstd::prelude::*;

verus! {

/// Whether the first fallback among some layers is at `k`.
pub open spec fn falls_back_at(layers: Seq<Push>, k: int) -> bool {
    &&& 0 <= k < layers.len()
    &&& layers[k].layer is FallbackIfRejected
    &&& forall|j: int| 0 <= j < k ==> !(#[trigger] layers[j].layer is FallbackIfRejected)
}

/// Whether some layers hold a fallback.
pub open spec fn falls_back(layers: Seq<Push>) -> bool {
    exists|k: int| falls_back_at(layers, k)
}

/// Where the first fallback among some layers is.
pub open spec fn fallback_index(layers: Seq<Push>) -> int {
    choose|k: int| falls_back_at(layers, k)
}

impl StackView {
    /// The stack that takes this one's place when discovery is rejected.
    pub open spec fn fallback(self) -> Option<StackName> {
        if falls_back(self.layers) {
            Some(self.layers[fallback_index(self.layers)].layer->FallbackIfRejected_0)
        } else {
            None
        }
    }

    /// The stack that takes this one's place when this one fails with `err`.
    pub open spec fn recover(self, err: Error) -> Option<StackName> {
        if err == Error::Discovery(DiscoveryError::DiscoveryRejected) {
            self.fallback()
        } else {
            None
        }
    }
}

impl Stack {
    /// Decides whether another stack takes this one's place after a failure.
    ///
    /// Where there is none, the failure is the answer.
    pub fn recover(&self, err: &Error) -> (instead: Option<StackName>)
        ensures
            instead == self@.recover(*err),
    {
        if !DiscoveryError::is_discovery_rejected(err) {
            return None;
        }
        let mut i: usize = 0;
        while i < self.layers.len()
            invariant
                i <= self.layers.len(),
                *err == Error::Discovery(DiscoveryError::DiscoveryRejected),
                forall|j: int|
                    0 <= j < i ==> !(#[trigger] self.layers@[j].layer is FallbackIfRejected),
            decreases self.layers.len() - i,
        {
            if let Layer::FallbackIfRejected(instead) = &self.layers[i].layer {
                proof {
                    assert(falls_back_at(self@.layers, i as int));
                    assert(falls_back_at(self@.layers, fallback_index(self@.layers)));
                }
                return Some(*instead);
            }
            i += 1;
        }
        None
    }
}

/// Where the stack of a given name is.
pub open spec fn position(stacks: Seq<StackView>, name: StackName) -> int {
    choose|i: int| 0 <= i < stacks.len() && (#[trigger] stacks[i]).name == name
}

/// The layers of the stack that requests are passed through by a layer of stack `i`.
///
/// Profiles pass requests through the stack that configures their routes. A
/// fallback takes a stack's place, and names, not requests, are passed through the
/// stack that refines them.
pub open spec fn passed_through(stacks: Seq<StackView>, i: int, layer: Layer) -> Seq<Push> {
    match layer {
        Layer::Profiles(name) => {
            let route = position(stacks, name);
            if 0 <= route < i {
                stacks[route].layers
            } else {
                Seq::empty()
            }
        },
        _ => Seq::empty(),
    }
}

/// Some layers of stack `i`, each with those that it passes requests through below
/// it.
pub open spec fn entered(stacks: Seq<StackView>, i: int, layers: Seq<Push>) -> Seq<Push>
    decreases layers.len(),
{
    if layers.len() == 0 {
        Seq::empty()
    } else {
        entered(stacks, i, layers.drop_last()) + passed_through(stacks, i, layers.last().layer)
            + seq![layers.last()]
    }
}

/// Layers that pass requests through no stack are entered alone.
pub proof fn entered_alone(stacks: Seq<StackView>, i: int, layers: Seq<Push>)
    requires
        forall|k: int| 0 <= k < layers.len() ==> !((#[trigger] layers[k]).layer is Profiles),
    ensures
        entered(stacks, i, layers) == layers,
    decreases layers.len(),
{
    if layers.len() > 0 {
        entered_alone(stacks, i, layers.drop_last());
        assert(layers.drop_last() + Seq::<Push>::empty() + seq![layers.last()] =~= layers);
    }
}

/// Layers are entered one part after the other.
pub proof fn entered_in_parts(
    stacks: Seq<StackView>,
    i: int,
    below: Seq<Push>,
    above: Seq<Push>,
)
    ensures
        entered(stacks, i, below + above) == entered(stacks, i, below) + entered(stacks, i, above),
    decreases above.len(),
{
    let layers = below + above;
    if above.len() == 0 {
        assert(layers =~= below);
        assert(entered(stacks, i, below) + entered(stacks, i, above) =~= entered(
            stacks,
            i,
            below,
        ));
    } else {
        assert(layers.drop_last() =~= below + above.drop_last());
        entered_in_parts(stacks, i, below, above.drop_last());
        assert(entered(stacks, i, layers) =~= entered(stacks, i, below) + entered(
            stacks,
            i,
            above,
        ));
    }
}

/// The layers that a request to stack `i` meets, in the order in which they were
/// pushed: it meets the last one first, which is the outermost. Where a layer passes
/// requests through another stack, the layers of that stack are met right after it.
///
/// `rejected` are the stacks whose targets discovery rejects, so that their
/// fallbacks take their place.
pub open spec fn path(stacks: Seq<StackView>, rejected: Set<StackName>, i: int) -> Seq<Push>
    decreases i,
{
    if !(0 <= i < stacks.len()) {
        Seq::empty()
    } else if rejected.contains(stacks[i].name) && falls_back(stacks[i].layers) {
        let below = position(stacks, stacks[i].fallback()->0);
        let above = entered(
            stacks,
            i,
            stacks[i].layers.skip(fallback_index(stacks[i].layers) + 1),
        );
        if 0 <= below < i {
            path(stacks, rejected, below) + above
        } else {
            above
        }
    } else {
        let own = entered(stacks, i, stacks[i].layers);
        match stacks[i].base {
            Base::Stack(name) => {
                let below = position(stacks, name);
                if 0 <= below < i {
                    path(stacks, rejected, below) + own
                } else {
                    own
                }
            },
            _ => own,
        }
    }
}

/// Whether a request that meets `layers` meets `first` before it meets any
/// `later`, which it does meet: whether each `later` is nested in a `first`.
///
/// Nesting is order in time between two layers of the same scope. A layer on what
/// makes services acts when a service is made, which may be long before a layer
/// on each service acts on the request, whichever of them is nested in the other.
#[verifier::opaque]
pub open spec fn meets_before(layers: Seq<Push>, first: Layer, later: Layer) -> bool {
    &&& exists|j: int| 0 <= j < layers.len() && (#[trigger] layers[j]).layer == later
    &&& forall|j: int|
        0 <= j < layers.len() && (#[trigger] layers[j]).layer == later ==> exists|i: int|
            j < i < layers.len() && (#[trigger] layers[i]).layer == first
}

/// Where `first` is met before the `later` at `j`.
proof fn met_above(layers: Seq<Push>, first: Layer, later: Layer, j: int) -> (i: int)
    requires
        meets_before(layers, first, later),
        0 <= j < layers.len(),
        layers[j].layer == later,
    ensures
        j < i < layers.len(),
        layers[i].layer == first,
{
    reveal(meets_before);
    choose|i: int| j < i < layers.len() && (#[trigger] layers[i]).layer == first
}

/// Where some `later` is met.
proof fn met_later(layers: Seq<Push>, first: Layer, later: Layer) -> (j: int)
    requires
        meets_before(layers, first, later),
    ensures
        0 <= j < layers.len(),
        layers[j].layer == later,
{
    reveal(meets_before);
    choose|j: int| 0 <= j < layers.len() && (#[trigger] layers[j]).layer == later
}

/// `first` is met before `later`, if it is met above each.
pub proof fn met_before(layers: Seq<Push>, first: Layer, later: Layer, k: int)
    requires
        0 <= k < layers.len(),
        layers[k].layer == later,
        forall|j: int|
            0 <= j < layers.len() && (#[trigger] layers[j]).layer == later ==> exists|i: int|
                j < i < layers.len() && (#[trigger] layers[i]).layer == first,
    ensures
        meets_before(layers, first, later),
{
    reveal(meets_before);
}

/// If a request meets `a` before `b`, and `b` before `c`, it meets `a` before `c`.
pub proof fn meets_before_is_transitive(layers: Seq<Push>, a: Layer, b: Layer, c: Layer)
    requires
        meets_before(layers, a, b),
        meets_before(layers, b, c),
    ensures
        meets_before(layers, a, c),
{
    let last = met_later(layers, b, c);
    assert forall|j: int| 0 <= j < layers.len() && (#[trigger] layers[j]).layer == c implies exists|
        i: int,
    | j < i < layers.len() && (#[trigger] layers[i]).layer == a by {
        let k = met_above(layers, b, c, j);
        let i = met_above(layers, a, b, k);
        assert(layers[i].layer == a);
    }
    met_before(layers, a, c, last);
}

/// What a request meets before `later` on the one part of its way on which it meets
/// `later`, it meets before `later` on its whole way.
pub proof fn met_before_on_a_part(
    below: Seq<Push>,
    part: Seq<Push>,
    above: Seq<Push>,
    first: Layer,
    later: Layer,
)
    requires
        !meets(below, later),
        meets_before(part, first, later),
        !meets(above, later),
    ensures
        meets_before(below + part + above, first, later),
{
    let layers = below + part + above;
    let m = below.len() as int;
    let n = m + part.len();
    assert forall|j: int| 0 <= j < layers.len() && (#[trigger] layers[j]).layer == later implies
        exists|i: int| j < i < layers.len() && (#[trigger] layers[i]).layer == first by {
        if j < m {
            assert(below[j].layer == later);
        } else if j < n {
            assert(part[j - m].layer == later);
            let i = met_above(part, first, later, j - m);
            assert(layers[m + i].layer == first);
        } else {
            assert(above[j - n].layer == later);
        }
    }
    let k = met_later(part, first, later);
    assert(layers[m + k] == part[k]);
    met_before(layers, first, later, m + k);
}

/// Whether a request that meets `layers` meets `layer`.
pub open spec fn meets(layers: Seq<Push>, layer: Layer) -> bool {
    exists|i: int| 0 <= i < layers.len() && (#[trigger] layers[i]).layer == layer
}

/// What is found out about a request on its way.
pub ghost struct Lookup {
    /// The target that the request is recognized to have.
    pub logical: Logical<HttpEndpoint>,
    /// The canonical form of that target's address, if it is refined to one.
    pub canonical: Option<Addr>,
    /// The profile that the target is recognized to have.
    pub profile: Profile,
    /// The address that a profile puts in the place of the target's, if it does.
    pub overridden: Option<Addr>,
}

/// What a stack is asked for at some place on the way of a request.
pub ghost enum Asked {
    /// A target.
    For(AnyTarget),
    /// A service profile, whose service is then asked for a target.
    Profiled(Profile, AnyTarget),
    /// The endpoints that a target is resolved to.
    Resolved(Concrete<Settings>),
    /// A target that the stack is not made for.
    Mistaken,
}

/// An address, unless there is another to put in its place.
pub open spec fn or_addr(other: Option<Addr>, addr: Addr) -> Addr {
    match other {
        Some(other) => other,
        None => addr,
    }
}

/// What is asked for below a layer, of what is asked for above it.
///
/// What makes services is asked for a target. Of the services of profiles each is
/// asked for a target in turn, which a layer on each service may map.
pub open spec fn asked_below(push: Push, lookup: Lookup, asked: Asked) -> Asked {
    match asked {
        Asked::For(target) => match push.layer {
            Layer::MapTarget(map) => match map.spec_apply(target) {
                Some(made) if push.scope == Scope::Make => Asked::For(made),
                _ => Asked::Mistaken,
            },
            Layer::Router(Recognize::LogicalPerRequest) => match target {
                AnyTarget::Accepted(_) => Asked::For(AnyTarget::Logical(lookup.logical)),
                _ => Asked::Mistaken,
            },
            Layer::Router(Recognize::ProfilePerTarget) => match target {
                AnyTarget::Logical(_) => Asked::Profiled(lookup.profile, target),
                _ => Asked::Mistaken,
            },
            Layer::Canonicalize { .. } => match target {
                AnyTarget::Logical(logical) => Asked::For(
                    AnyTarget::Logical(
                        Target {
                            addr: or_addr(lookup.canonical, logical.addr),
                            inner: logical.inner,
                        },
                    ),
                ),
                _ => Asked::Mistaken,
            },
            Layer::Profiles(_) => Asked::Mistaken,
            Layer::Discover { .. } => match target {
                AnyTarget::Balanced(concrete) => Asked::Resolved(concrete),
                _ => Asked::Mistaken,
            },
            Layer::Log(context) => if context.spec_fields(&target) is Some {
                asked
            } else {
                Asked::Mistaken
            },
            _ => asked,
        },
        Asked::Profiled(profile, target) => match push.layer {
            Layer::MapTarget(map) => match map.spec_apply(target) {
                Some(made) if push.scope == Scope::Service => Asked::Profiled(profile, made),
                _ => Asked::Mistaken,
            },
            Layer::Profiles(_) => match target {
                AnyTarget::Concrete(concrete) => Asked::For(
                    AnyTarget::Concrete(
                        Target {
                            addr: or_addr(lookup.overridden, concrete.addr),
                            inner: concrete.inner,
                        },
                    ),
                ),
                _ => Asked::Mistaken,
            },
            Layer::Log(context) => if context.spec_fields(&AnyTarget::Profile(profile)) is Some {
                asked
            } else {
                Asked::Mistaken
            },
            Layer::Router(_) | Layer::Canonicalize { .. } | Layer::Discover { .. } => {
                Asked::Mistaken
            },
            _ => asked,
        },
        _ => asked,
    }
}

/// What is asked for below the first `n` of some layers, where `asked` is asked for
/// above them.
pub open spec fn asked_under(layers: Seq<Push>, n: int, lookup: Lookup, asked: Asked) -> Asked
    decreases n,
{
    if n <= 0 {
        asked
    } else {
        asked_under(layers, n - 1, lookup, asked_below(layers[n - 1], lookup, asked))
    }
}

/// What is asked for below some layers, where `asked` is asked for above them.
pub open spec fn reached(layers: Seq<Push>, lookup: Lookup, asked: Asked) -> Asked {
    asked_under(layers, layers.len() as int, lookup, asked)
}

/// What is asked for below some layers depends on them alone.
proof fn asked_under_prefix(
    below: Seq<Push>,
    above: Seq<Push>,
    n: int,
    lookup: Lookup,
    asked: Asked,
)
    requires
        n <= below.len(),
    ensures
        asked_under(below + above, n, lookup, asked) == asked_under(below, n, lookup, asked),
    decreases n,
{
    if n > 0 {
        let next = asked_below(below[n - 1], lookup, asked);
        asked_under_prefix(below, above, n - 1, lookup, next);
    }
}

proof fn asked_under_parts(
    below: Seq<Push>,
    above: Seq<Push>,
    n: int,
    lookup: Lookup,
    asked: Asked,
)
    requires
        0 <= n <= above.len(),
    ensures
        asked_under(below + above, below.len() + n, lookup, asked) == reached(
            below,
            lookup,
            asked_under(above, n, lookup, asked),
        ),
    decreases n,
{
    if n == 0 {
        asked_under_prefix(below, above, below.len() as int, lookup, asked);
    } else {
        let next = asked_below(above[n - 1], lookup, asked);
        assert((below + above)[below.len() + n - 1] == above[n - 1]);
        asked_under_parts(below, above, n - 1, lookup, next);
    }
}

/// What is reached through two parts of a way is what is reached through the lower
/// one from what is reached through the upper one.
pub proof fn reached_through_parts(
    below: Seq<Push>,
    above: Seq<Push>,
    lookup: Lookup,
    asked: Asked,
)
    ensures
        reached(below + above, lookup, asked) == reached(
            below,
            lookup,
            reached(above, lookup, asked),
        ),
{
    asked_under_parts(below, above, above.len() as int, lookup, asked);
}

} // verus!
