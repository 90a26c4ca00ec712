//! Idempotent command processing for a newsletter service, backed by a
//! durable delivery queue.
//!
//! A publish command carries a caller-chosen idempotency key. The first
//! request to claim the key runs the command and stores its response; every
//! retry is answered with that stored response. Publishing only records the
//! issue and one queue row per confirmed subscriber; the delivery worker
//! drains the queue on its own schedule.
//!
//! The store is described twice: as a mathematical value with every
//! operation a function on it ([`store::model`]), and as a store kept in
//! memory whose operations are proved to do what the model says
//! ([`store::memory`]). What the service guarantees is proved over the
//! model in [`guarantees`]. The decisions of every command are plain
//! functions, so that a web layer with a database behind it can do the
//! reading, the writing and the sending, and leave the deciding to them.

pub mod authentication;
pub mod delivery;
pub mod domain;
pub mod email_client;
pub mod error;
pub mod flash;
pub mod foreign;
pub mod guarantees;
pub mod idempotency;
pub mod response;
pub mod routes;
pub mod startup;
pub mod store;
pub mod text;
