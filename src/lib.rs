//! Authenticated real-time delivery.
//!
//! - `codec`: signed identity tokens, issued and verified under one secret.
//! - `gate`: authentication in front of protected requests: a `Bearer` credential,
//!   verified, becomes the request's identity.
//! - `registry`: the live connections, at most one per subject, with
//!   compare-and-remove on disconnect.
//! - `session`: one WebSocket connection, from an authenticated upgrade to its
//!   entry in the registry and back out.
//! - `dispatch`: copies of the connections taken out of the registry, and
//!   delivery over them to one subject, to a list, to a role, or to all.
//! - `models`: the account and workflow enums and request bodies.

pub mod codec;
pub mod dispatch;
pub mod gate;
pub mod models;
pub mod registry;
pub mod session;
pub mod text;
