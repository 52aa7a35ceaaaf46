//! Client library for the Yggdrasil network-authentication protocol.
//!
//! The library covers the protocol logic of five operations — authenticate,
//! refresh, validate, invalidate and sign out — as pure, verified functions:
//! building the JSON request bodies, classifying an HTTP status code together
//! with the raw response bytes, and decoding the typed success or error
//! payloads. Performing the HTTP POST itself is left to the caller, who hands
//! the status code and body bytes back to this crate.

pub mod text;
pub mod json;
pub mod json_parse;
pub mod decode;
pub mod round_trip;

pub mod client;

pub mod auth_agent;
pub mod auth_error;
pub mod auth_profile;
pub mod auth_user;

pub mod auth_request;
pub mod auth_response;
pub mod invalidate_request;
pub mod refresh_request;
pub mod refresh_response;
pub mod signout_request;
pub mod validate_request;

pub use client::{AuthClient, ClientError};

pub use auth_agent::AuthAgent;
pub use auth_error::AuthError;
pub use auth_profile::AuthProfile;
pub use auth_user::{AuthUser, AuthUserProperty};
pub use auth_request::AuthRequest;
pub use auth_response::AuthResponse;
pub use refresh_response::RefreshResponse;
pub use invalidate_request::InvalidateRequest;
pub use refresh_request::RefreshRequest;
pub use signout_request::SignoutRequest;
pub use validate_request::ValidateRequest;
