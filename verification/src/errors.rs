//! Error taxonomy of the authorization flow, token exchange and resource calls.

use vstd::prelude::*;

verus! {

/// Failure raised by the flow session store itself.
#[derive(Debug, PartialEq, Eq, Structural, Clone, Copy)]
pub enum StoreError {
    /// A `put` found a live entry already stored under the same CSRF state token.
    DuplicateKey,
}

/// Every failure class of the coordinator. Detail strings carry provider or
/// transport diagnostics; they never carry the PKCE verifier or a raw token.
#[derive(Debug)]
pub enum FlowError {
    /// Internal store fault; fatal to the request.
    SessionStoreError { detail: String },
    /// The callback's state was never issued, already consumed, or expired.
    UnknownOrExpiredState,
    /// The provider denied the token exchange; carries its error detail.
    TokenExchangeRejected { error_code: String, description: String },
    /// Transient transport-class fault reaching the token endpoint or the
    /// protected resource API; retryable by the caller with backoff.
    TokenExchangeUnreachable { detail: String },
    /// No valid credential is cached for the requested resource call.
    UnauthorizedResource,
    /// The identity lookup returned no usable record.
    IdentityNotFound,
}

/// The class of a `FlowError`, without its detail strings.
#[derive(Debug, PartialEq, Eq, Structural, Clone, Copy)]
pub enum FlowErrorKind {
    SessionStoreError,
    UnknownOrExpiredState,
    TokenExchangeRejected,
    TokenExchangeUnreachable,
    UnauthorizedResource,
    IdentityNotFound,
}

impl FlowError {
    pub open spec fn spec_kind(&self) -> FlowErrorKind {
        match self {
            FlowError::SessionStoreError { .. } => FlowErrorKind::SessionStoreError,
            FlowError::UnknownOrExpiredState => FlowErrorKind::UnknownOrExpiredState,
            FlowError::TokenExchangeRejected { .. } => FlowErrorKind::TokenExchangeRejected,
            FlowError::TokenExchangeUnreachable { .. } => FlowErrorKind::TokenExchangeUnreachable,
            FlowError::UnauthorizedResource => FlowErrorKind::UnauthorizedResource,
            FlowError::IdentityNotFound => FlowErrorKind::IdentityNotFound,
        }
    }

    /// The class of this error.
    pub fn kind(&self) -> (k: FlowErrorKind)
        ensures
            k == self.spec_kind(),
    {
        match self {
            FlowError::SessionStoreError { .. } => FlowErrorKind::SessionStoreError,
            FlowError::UnknownOrExpiredState => FlowErrorKind::UnknownOrExpiredState,
            FlowError::TokenExchangeRejected { .. } => FlowErrorKind::TokenExchangeRejected,
            FlowError::TokenExchangeUnreachable { .. } => FlowErrorKind::TokenExchangeUnreachable,
            FlowError::UnauthorizedResource => FlowErrorKind::UnauthorizedResource,
            FlowError::IdentityNotFound => FlowErrorKind::IdentityNotFound,
        }
    }
}

/// HTTP status owed for each error class: store faults are server errors,
/// state/replay and provider denials are client errors, transport faults map
/// to a bad gateway, and the resource-call faults map to 401 and 404.
pub open spec fn spec_http_status(k: FlowErrorKind) -> u16 {
    match k {
        FlowErrorKind::SessionStoreError => 500,
        FlowErrorKind::UnknownOrExpiredState => 400,
        FlowErrorKind::TokenExchangeRejected => 400,
        FlowErrorKind::TokenExchangeUnreachable => 502,
        FlowErrorKind::UnauthorizedResource => 401,
        FlowErrorKind::IdentityNotFound => 404,
    }
}

impl FlowError {
    /// The HTTP status this error surfaces as.
    pub fn http_status(&self) -> (s: u16)
        ensures
            s == spec_http_status(self.spec_kind()),
    {
        match self {
            FlowError::SessionStoreError { .. } => 500,
            FlowError::UnknownOrExpiredState => 400,
            FlowError::TokenExchangeRejected { .. } => 400,
            FlowError::TokenExchangeUnreachable { .. } => 502,
            FlowError::UnauthorizedResource => 401,
            FlowError::IdentityNotFound => 404,
        }
    }

    /// Whether the caller may retry the failed step with backoff: only the
    /// transient transport class is safe to retry.
    pub fn retryable(&self) -> (r: bool)
        ensures
            r == (self.spec_kind() == FlowErrorKind::TokenExchangeUnreachable),
    {
        match self {
            FlowError::TokenExchangeUnreachable { .. } => true,
            _ => false,
        }
    }
}

} // verus!
