//! Ethereum-style account derivation and a race-to-first-match vanity search.
pub mod account;
pub mod hex;
pub mod pattern;
pub mod search;

pub use account::{Account, DeriveError};
pub use hex::{byte_array_to_hex, byte_array_to_hex_prefixed};
pub use pattern::{Pattern, PatternError};
pub use search::{try_generate_wallet, SearchState, Step};
