//! A verified core for a crowdfunding backend: account creation with
//! one-time-code email verification, credential-based login issuing a signed
//! bearer token, and a campaign/pledge ledger with pagination and ownership
//! scoping. Storage is modelled as in-memory stores with explicit
//! invariants; password hashing, token signing, random code generation and
//! the clock are reached through a small set of trusted declarations.

pub mod auth;
pub mod campaigns;
pub mod errors;
pub mod ml;
pub mod models;
pub mod otp;

pub use errors::ApiError;
