//! Client-side runtime core for an object-oriented display protocol.
//!
//! The crate keeps the table of the protocol objects that a client holds
//! proxies of, routes the events that the wire delivers to per-queue
//! buffers, dispatches a queue's events to handlers in the order of their
//! arrival, and encodes requests, which are dropped on objects that have
//! been destroyed. Reading and writing the wire is left to the caller:
//! the runtime takes decoded message headers in and hands encoded
//! requests out.
//!
//! - [`interface`]: the read-only table of interface descriptors.
//! - [`wire`]: the byte layout of message arguments.
//! - [`model`]: the state of a connection as a mathematical value, and
//!   what each operation makes of it.
//! - [`connection`]: the runtime itself, and the proxies it hands out.
//! - [`dispatch`]: handlers, event queues and the dispatch of a queue.
//! - [`journal`]: a handler that keeps what it is handed.
//! - [`request`]: the outcome of a request.
//! - [`guarantees`]: what holds across calls.
//!
//! Every function is verified against its contract.

pub mod connection;
pub mod dispatch;
pub mod guarantees;
pub mod interface;
pub mod journal;
pub mod model;
pub mod request;
pub mod wire;
