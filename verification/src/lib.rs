//! Client-side pieces of a public account and server-metadata service.
//!
//! The heart of the crate is the server blocklist matcher: a set of SHA-1
//! digests of blocked address patterns, and a membership test that hashes an
//! address together with all of its wildcard generalizations.

pub mod api;
pub mod hashing;
pub mod player;
pub mod server_block;
pub mod stats;
pub mod text;

pub use player::NameChange;
pub use server_block::BlockedServers;
