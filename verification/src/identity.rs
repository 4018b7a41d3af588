//! TLS identities, as plain values.
use vstd::prelude::*;

verus! {

/// The name of a TLS identity.
#[derive(Debug, PartialEq, Eq)]
pub struct Name {
    pub name: String,
}

/// Why there is no identity.
#[derive(Debug, PartialEq, Eq)]
pub enum ReasonForNoIdentity {
    /// The peer is the local application, which is reached over loopback.
    Loopback,
    /// Any other reason, described.
    Other(String),
}

/// An identity, or the reason why there is none.
#[derive(Debug, PartialEq, Eq)]
pub enum Conditional<T> {
    Identity(T),
    NoIdentity(ReasonForNoIdentity),
}

impl Clone for ReasonForNoIdentity {
    fn clone(&self) -> (reason: Self)
        ensures
            reason == *self,
    {
        match self {
            ReasonForNoIdentity::Loopback => ReasonForNoIdentity::Loopback,
            ReasonForNoIdentity::Other(text) => ReasonForNoIdentity::Other(text.clone()),
        }
    }
}

impl<T> Conditional<T> {
    /// Borrows the identity, and keeps the reason why there is none.
    pub fn as_ref(&self) -> (borrowed: Conditional<&T>)
        ensures
            match *self {
                Conditional::Identity(identity) => borrowed == Conditional::Identity(&identity),
                Conditional::NoIdentity(reason) => borrowed == Conditional::<&T>::NoIdentity(
                    reason,
                ),
            },
    {
        match self {
            Conditional::Identity(identity) => Conditional::Identity(identity),
            Conditional::NoIdentity(reason) => Conditional::NoIdentity(reason.clone()),
        }
    }
}

} // verus!
