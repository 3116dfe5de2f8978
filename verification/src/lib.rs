//! Core of a social-feed service: profiles, messages, follows and message
//! broadcasts (quote-reposts) over a relational entity store.
//!
//! The store is modelled in memory with full relational invariants; the write
//! pipeline (message creation with optional broadcast link, response creation)
//! is verified to be atomic, and the read side (single-message fetch and
//! cursor-paginated feed assembly with batched broadcast resolution and an
//! in-memory merge) is verified against a mathematical model of the store.

pub mod colview;
pub mod feed;
pub mod follow;
pub mod laws;
pub mod message;
pub mod profile;
pub mod store;
