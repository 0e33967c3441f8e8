//! Storage and ingestion core of a decentralised, append-only event protocol.
//!
//! Identities publish signed events, each keyed by the identity, one of its
//! processes and that process's logical clock. The relations in [`store`]
//! keep the events together with their last-write-wins elements and their
//! outgoing references; [`ingest`] commits whole batches or nothing;
//! [`resolve`] answers how many identities currently assert a value about a
//! subject; [`pipeline`] holds the decisions of a request handler that
//! performs the same ingestion against a remote storage engine, [`native`]
//! what it hands to that engine, and [`response`] what it tells its caller.

pub mod error;
pub mod ingest;
pub mod model;
pub mod native;
pub mod pipeline;
pub mod resolve;
pub mod response;
pub mod store;
