//! Domain core of a threaded-discussion backend.
//!
//! Users post messages, file them under topics, reply to a message to form a
//! stream (the flattened reply-thread rooted at that message), and subscribe
//! to topics. This crate holds the transactional domain rules: whether a new
//! message is a topic post or a reply, the bookkeeping that keeps stream
//! membership and counts consistent, cursor-based pagination, and the boundary
//! between committed state changes and post-commit event notification.
//!
//! The relational store is modelled as an explicit in-memory [`store::Store`]
//! value whose invariants mirror the database's unique constraints; every
//! domain operation is a verified transition on that value. Transport,
//! persistence connections and the event bus live outside this crate: callers
//! perform the I/O and hand plain values in and out.

pub mod current_user;
pub mod error;
pub mod laws;
pub mod messages;
pub mod model;
pub mod pagination;
pub mod repo;
pub mod store;
pub mod topics;

pub use error::AppError;
