//! Storage bindings: where the data behind an identifier is kept.

use vstd::prelude::*;

verus! {

/// The scheme under which a response URL is served.
#[derive(Clone, Copy, Debug, PartialEq, Eq, Structural)]
pub enum Scheme {
    Http,
    Https,
}

/// A directory on the local file system, served under a URL prefix.
#[derive(Clone, Debug, PartialEq, Eq)]
pub struct LocalStorage {
    pub scheme: Scheme,
    pub authority: String,
    pub base_directory: String,
    pub response_url_prefix: String,
}

impl LocalStorage {
    pub fn new(
        scheme: Scheme,
        authority: String,
        base_directory: String,
        response_url_prefix: String,
    ) -> (storage: LocalStorage)
        ensures
            storage == (LocalStorage { scheme, authority, base_directory, response_url_prefix }),
    {
        LocalStorage { scheme, authority, base_directory, response_url_prefix }
    }
}

/// One storage backend, by kind.
#[derive(Clone, Debug, PartialEq, Eq)]
pub enum Storage {
    Local { local_storage: LocalStorage },
    S3 { bucket: String },
}

/// The schemes that a resolver accepts for a request.
#[derive(Clone, Copy, Debug, PartialEq, Eq, Structural)]
pub struct AllowGuard {
    pub allow_http: bool,
    pub allow_https: bool,
}

impl AllowGuard {
    /// Whether the guard accepts a request made under `scheme`.
    pub open spec fn permits_spec(self, scheme: Scheme) -> bool {
        match scheme {
            Scheme::Http => self.allow_http,
            Scheme::Https => self.allow_https,
        }
    }

    /// The guard that accepts every scheme.
    pub fn all() -> (guard: AllowGuard)
        ensures
            forall|scheme: Scheme| guard.permits_spec(scheme),
            guard == (AllowGuard { allow_http: true, allow_https: true }),
    {
        AllowGuard { allow_http: true, allow_https: true }
    }

    pub fn permits(&self, scheme: Scheme) -> (permitted: bool)
        ensures
            permitted == self.permits_spec(scheme),
    {
        match scheme {
            Scheme::Http => self.allow_http,
            Scheme::Https => self.allow_https,
        }
    }
}

impl Default for AllowGuard {
    /// The default guard accepts every scheme.
    fn default() -> (guard: AllowGuard)
        ensures
            guard == (AllowGuard { allow_http: true, allow_https: true }),
    {
        AllowGuard { allow_http: true, allow_https: true }
    }
}

/// Whether an optional guard lets a request under `scheme` through: a
/// resolver without a guard accepts every request.
pub open spec fn guard_permits(guard: Option<AllowGuard>, scheme: Scheme) -> bool {
    match guard {
        Some(guard) => guard.permits_spec(scheme),
        None => true,
    }
}

} // verus!
