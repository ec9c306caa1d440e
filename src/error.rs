use vstd::prelude::*;

verus! {

/// Failures on the way to and from the upstream resolver.
#[derive(Debug, PartialEq, Eq)]
pub enum UpstreamError {
    /// Resolving the upstream hostname failed: the hostname and a diagnostic.
    Bootstrap(String, String),
    /// The HTTPS client could not be built.
    Build,
    /// Forwarding one request failed (encode, send or decode).
    Resolve,
}

/// Failures while binding a local listener: the host and the port.
#[derive(Debug, PartialEq, Eq)]
pub enum LocalError {
    InvalidAddress(String, u16),
    PermissionDenied(String, u16),
    Unknown(String, u16),
}

} // verus!
