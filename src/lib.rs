//! Search for a key pair whose address matches a vanity pattern: pattern
//! parsing and matching, address derivation, and the decisions of the
//! concurrent search.
pub mod address;
pub mod hex;
pub mod order;
pub mod pattern;
pub mod pattern_vec;
pub mod search;
pub mod search_sorted;
pub mod text;
