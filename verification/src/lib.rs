//! Core of a small blog service: the entity model, the post-listing query,
//! the reduction of join rows to posts with their tags and author, the
//! pagination arithmetic, and the protocols by which users and posts are
//! written to and listed from a relational store.
//!
//! The store itself is a collaborator. Every operation is a step function:
//! it is handed what the store last reported and answers with the next
//! request for the store, or with the operation's outcome.

pub mod aggregate;
pub mod error;
pub mod models;
pub mod pagination;
pub mod posts;
pub mod query;
pub mod store;
pub mod tags;
pub mod users;
