//! Typed schema for a JSON-RPC client of a Bitcoin-protocol node with
//! sidechain extensions.
//!
//! The crate turns loosely-typed wire values (hex strings, reversed-byte
//! hashes, compact difficulty targets, decimal amount strings, tagged
//! commitment records) into strongly-typed domain values, and resolves the
//! response shape of verbosity-polymorphic RPC methods at the type level.
//! Transport (connections, authentication, the JSON parser itself) is left to
//! the caller; every decoder here works on plain values and is verified.

pub mod error;
pub mod amount;
pub mod commitment;
pub mod compact;
pub mod hashes;
pub mod hex;
pub mod json;
pub mod schema;
pub mod template;
pub mod text;
pub mod witness;
