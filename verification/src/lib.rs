//! A small blogging domain (users, blogs with posts, linked email and OAuth
//! accounts) with relay-style forward pagination: every list-returning field
//! produces an ordered page of edges, each edge carrying an opaque cursor,
//! together with page-boundary flags.
//!
//! The heart of the crate is the pagination and node-identity subsystem:
//! the cursor codec ([`cursor`]), the node-identity capability and the
//! entity types ([`models`]), the generic page selection and connection
//! builder ([`connection`]), and the in-memory relational store with its
//! insert-time constraints ([`store`]).

mod b64;
pub mod connection;
pub mod cursor;
pub mod errors;
pub mod models;
pub mod store;
