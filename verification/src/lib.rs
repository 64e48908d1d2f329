//! An in-process publish/subscribe relay.
//!
//! Clients register under a name, attach a connection, and are sent the
//! messages that a publish operation addresses to them. The crate holds the
//! rules of the relay, each with its contract:
//!
//! - [`registry`]: the set of clients, at most one record per identifier;
//! - [`registration`]: adding and removing a named client;
//! - [`connection`]: the life of one connection, from handshake to teardown;
//! - [`dispatch`]: who a message is for, and the fan-out onto the channels;
//! - [`service`]: the requests of the front-end and the answer to each;
//! - [`laws`]: what holds of these taken together.
//!
//! A [`Registry`] is an ordinary value: shared behind a reader-writer lock,
//! `publish` and the lookups take the read side, everything that changes it
//! the write side, and no operation waits while it holds either.

pub mod client;
pub mod connection;
pub mod dispatch;
pub mod laws;
pub mod message;
pub mod registration;
pub mod registry;
pub mod service;

pub use client::{Client, Outbound};
pub use connection::{Connection, ConnectionAction, ConnectionEvent, ConnectionState};
pub use dispatch::Delivery;
pub use message::OutboundMessage;
pub use registration::RegistryError;
pub use registry::Registry;
pub use service::{Request, Response};
