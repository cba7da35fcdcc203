//! Verified core of a pull-through gateway for the container-registry
//! wire API: per-connection protocol classification with byte replay,
//! per-request dispatch, path and token-scope rewriting, and the
//! startup discovery of the upstream token endpoint.
//!
//! Everything that touches the network lives outside this crate; the
//! functions here are pure decisions over plain values.

use vstd::prelude::*;

pub mod challenge;
pub mod dispatch;
pub mod errors;
pub mod proxy;
pub mod scan;
pub mod sniff;
pub mod urls;

use crate::errors::ConfigError;
use crate::urls::UrlParts;

verus! {

/// Where the gateway listens; both fields are optional so a caller can
/// fill them from its environment before falling back to the defaults.
pub struct Bind {
    pub host: Option<String>,
    pub port: Option<u16>,
}

impl Default for Bind {
    /// The built-in bind address, used when the environment names none.
    fn default() -> (r: Self)
        ensures
            r.host matches Some(h) && h@ == "0.0.0.0"@,
            r.port == Some(8080u16),
    {
        Bind { host: Some("0.0.0.0".to_string()), port: Some(8080) }
    }
}

/// The upstream registry the gateway fronts: where the wire API lives,
/// where bearer tokens are issued, and the repository path segment the
/// gateway inserts.  Immutable after construction.
#[derive(Clone, Debug)]
pub struct Registry {
    pub endpoint: UrlParts,
    pub token_endpoint: UrlParts,
    pub repo_prefix: Vec<u8>,
}

impl Registry {
    /// Both URLs carry a scheme and a host, and the prefix is a
    /// non-empty literal path segment.
    pub open spec fn wf(self) -> bool {
        &&& self.endpoint.wf()
        &&& self.endpoint.host@.len() > 0
        &&& self.token_endpoint.wf()
        &&& self.token_endpoint.host@.len() > 0
        &&& self.repo_prefix@.len() > 0
    }

    /// Assemble the registry configuration.  An absent or empty
    /// repository prefix is a fatal configuration error for the caller
    /// to act on; with a prefix present the fields are taken as given.
    pub fn new(endpoint: UrlParts, token_endpoint: UrlParts, repo_prefix: Vec<u8>) -> (r: Result<
        Registry,
        ConfigError,
    >)
        requires
            endpoint.wf(),
            endpoint.host@.len() > 0,
            token_endpoint.wf(),
            token_endpoint.host@.len() > 0,
        ensures
            repo_prefix@.len() == 0 ==> r == Err::<Registry, ConfigError>(
                ConfigError::MissingPrefix,
            ),
            repo_prefix@.len() > 0 ==> (r matches Ok(reg) && reg == (Registry {
                endpoint,
                token_endpoint,
                repo_prefix,
            }) && reg.wf()),
    {
        if repo_prefix.len() == 0 {
            Err(ConfigError::MissingPrefix)
        } else {
            Ok(Registry { endpoint, token_endpoint, repo_prefix })
        }
    }
}

/// Everything one request needs, shared read-only by every
/// connection: the optional pre-formatted upstream credential, the
/// optional externally visible hostname, and the registry
/// configuration.
#[derive(Clone, Debug)]
pub struct AppState {
    pub auth: Option<Vec<u8>>,
    pub hostname: Option<Vec<u8>>,
    pub registry: Registry,
}

impl AppState {
    pub open spec fn wf(self) -> bool {
        self.registry.wf()
    }

    /// Assemble the shared state from an already validated registry
    /// configuration and the optional credential and hostname.
    pub fn new(auth: Option<Vec<u8>>, hostname: Option<Vec<u8>>, registry: Registry) -> (r: Self)
        requires
            registry.wf(),
        ensures
            r == (AppState { auth, hostname, registry }),
            r.wf(),
    {
        AppState { auth, hostname, registry }
    }
}

} // verus!
