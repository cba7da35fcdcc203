//! Error taxonomy.  Configuration and discovery failures are fatal to
//! the caller before any listener is bound; the caller decides how to
//! terminate.

use vstd::prelude::*;

verus! {

/// Missing or invalid startup configuration.
#[derive(Clone, Copy, Debug, PartialEq, Eq, Structural)]
pub enum ConfigError {
    /// The repository prefix is absent or empty.
    MissingPrefix,
    /// The upstream endpoint does not parse as an absolute URL with a
    /// scheme and a host.
    InvalidEndpoint,
}

/// The startup probe for the upstream token endpoint failed or yielded
/// an unusable challenge.
#[derive(Clone, Copy, Debug, PartialEq, Eq, Structural)]
pub enum DiscoveryError {
    /// The probe request itself failed.
    ProbeFailed,
    /// The probe response carried no `WWW-Authenticate` header.
    MissingChallengeHeader,
    /// No attribute of the challenge names a realm.
    MissingRealm,
    /// The realm attribute has no value.
    MalformedRealm,
    /// The realm value does not parse as an absolute URL with a scheme
    /// and a host.
    InvalidRealmUrl,
}

} // verus!
