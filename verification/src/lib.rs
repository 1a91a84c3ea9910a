//! Verified core of an OAuth2 authorization-code + PKCE session coordinator.
//!
//! The library tracks many concurrent authorization flows, each keyed by its
//! own CSRF state token, validates provider callbacks by atomically consuming
//! the matching flow record, prepares the token-exchange request, caches the
//! resulting credential, and plans the downstream resource calls. All
//! networking, routing and configuration I/O lives outside this crate; the
//! functions here work on plain values and carry full contracts.

pub mod cache;
pub mod encode;
pub mod errors;
pub mod exchange;
pub mod initiator;
pub mod pkce;
pub mod resource;
pub mod settings;
pub mod store;
