//! Errors reported by the PKI environment and the group-state checks.

use vstd::prelude::*;

verus! {

/// Why an operation on the PKI environment or on a group descriptor failed.
#[derive(Debug, Clone, Copy, PartialEq, Eq, Structural)]
pub enum CryptoError {
    /// A trust anchor is registered already; the one in place is kept.
    TrustAnchorAlreadyRegistered,
    /// The operation needs a trust anchor and none is registered.
    TrustAnchorNotRegistered,
    /// Certificate or revocation-list bytes could not be decoded.
    MalformedInput,
    /// An expiration, signature, chain or revocation check failed.
    ValidationFailed,
    /// The host application skipped a setup step that the operation relies on.
    ConsumerError,
    /// A group descriptor could not be parsed or authenticated.
    InvalidGroupInfo,
    /// A conversation has a parent conversation that is not known.
    ParentGroupNotFound,
}

} // verus!
