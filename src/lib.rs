//! Order-book settlement engine for a two-asset spot exchange.
//!
//! The library keeps the two sides of the book, validates proposed matches
//! against reported balances, and derives the token transfers that settle them.
//! Persistence, balance queries and message encoding are left to the host.

pub mod types;
pub mod keys;
pub mod book;
pub mod settle;
pub mod admin;
pub mod query;
pub mod laws;
