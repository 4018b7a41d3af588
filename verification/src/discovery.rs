//! Failures of discovery, and which of them the proxy recovers from.
use vstd::prelude::*;

verus! {

/// An error, as far as the proxy tells errors apart.
#[derive(Debug, PartialEq, Eq)]
pub enum Error {
    /// A failure that a discovery cache has already classified.
    Discovery(DiscoveryError),
    /// The control plane rejected the discovery of a target.
    DiscoveryRejected,
    /// The target's address can have no service profile.
    InvalidProfileAddr,
    /// Any other error, by its message.
    Other(String),
}

impl Error {
    /// The text that describes this error, where it is known: what rejects a target
    /// is told by its type alone.
    pub open spec fn message(self) -> Option<Seq<char>> {
        match self {
            Error::Discovery(err) => Some(err.message()),
            Error::DiscoveryRejected | Error::InvalidProfileAddr => None,
            Error::Other(message) => Some(message@),
        }
    }
}

/// A classified failure of discovery, which every caller that shares a cached
/// service can be handed.
#[derive(Debug, PartialEq, Eq)]
pub enum DiscoveryError {
    DiscoveryRejected,
    Inner(String),
}

impl Clone for DiscoveryError {
    fn clone(&self) -> (err: Self)
        ensures
            err == *self,
    {
        match self {
            DiscoveryError::DiscoveryRejected => DiscoveryError::DiscoveryRejected,
            DiscoveryError::Inner(message) => DiscoveryError::Inner(message.clone()),
        }
    }
}

impl vstd::std_specs::convert::FromSpecImpl<Error> for DiscoveryError {
    open spec fn obeys_from_spec() -> bool {
        true
    }

    open spec fn from_spec(orig: Error) -> Self {
        match orig {
            Error::Discovery(inner) => inner,
            Error::DiscoveryRejected | Error::InvalidProfileAddr => {
                DiscoveryError::DiscoveryRejected
            },
            Error::Other(message) => DiscoveryError::Inner(message),
        }
    }
}

/// Classifies an error: one that was classified before stays as it is, one that
/// rejects the target is a rejection, and any other is kept by its message.
impl From<Error> for DiscoveryError {
    fn from(orig: Error) -> (err: Self) {
        match orig {
            Error::Discovery(inner) => inner,
            Error::DiscoveryRejected | Error::InvalidProfileAddr => {
                DiscoveryError::DiscoveryRejected
            },
            Error::Other(message) => DiscoveryError::Inner(message),
        }
    }
}

impl DiscoveryError {
    /// The text that describes this error.
    pub open spec fn message(self) -> Seq<char> {
        match self {
            DiscoveryError::DiscoveryRejected => "discovery rejected"@,
            DiscoveryError::Inner(message) => message@,
        }
    }

    /// Describes this error.
    pub fn to_string(&self) -> (text: String)
        ensures
            text@ == self.message(),
    {
        match self {
            DiscoveryError::DiscoveryRejected => "discovery rejected".to_string(),
            DiscoveryError::Inner(message) => message.clone(),
        }
    }

    /// Whether an error is a rejection that a discovery cache has classified.
    ///
    /// This is what a fallback asks of an error before it recovers from it.
    pub fn is_discovery_rejected(err: &Error) -> (rejected: bool)
        ensures
            rejected == (*err == Error::Discovery(DiscoveryError::DiscoveryRejected)),
    {
        match err {
            Error::Discovery(DiscoveryError::DiscoveryRejected) => true,
            _ => false,
        }
    }
}

} // verus!
