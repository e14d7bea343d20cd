//! Scheduled posts for a remote publishing API: the durable queue, the
//! selection of what is due, the splitting of a body into a thread, and the
//! bookkeeping of each delivery.

pub mod config;
pub mod schedule;
pub mod text;
pub mod text_laws;
pub mod twitter;
