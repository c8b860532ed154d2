//! WebAuthn-style passkey assertion verifier.
//!
//! The crate decides whether a caller-supplied assertion bundle proves
//! possession of the private key matching a stored credential and binds it to
//! the exact 32-byte payload being authorized. It contains an unpadded
//! base64url encoder (used to reconstruct the expected challenge text), a
//! tolerant JSON field extractor for untrusted client data, a fixed-offset
//! flag inspector for authenticator data, the two-stage hash/verify signature
//! check, and the authorization state machines composing them over an
//! injected credential store with lease semantics.

pub mod auth;
pub mod auth_data;
pub mod base64_url;
pub mod client_data;
pub mod crypto;
pub mod errors;
pub mod store;
