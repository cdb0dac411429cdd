//! Concurrency and replication core of an embedded-database web server.
//!
//! The library models the request envelope that flows through one HTTP
//! request, the single-writer actor that serializes all mutations, the
//! master-to-slave replication protocol, the email dispatch outcome rules,
//! and the re-armable sleep scheduler.  Everything here is verified; the
//! surrounding I/O (HTTP transport, the database engine, SMTP) lives
//! outside the library and talks to it through plain values.

pub mod codec;
pub mod config;
pub mod email;
pub mod envelope;
pub mod hashing;
pub mod replication;
pub mod sched;
pub mod writer;
