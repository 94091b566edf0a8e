//! Patina RPC: an asynchronous remote procedure call protocol over one
//! multiplexed connection.
//!
//! This library is the protocol's logic. It performs no I/O: sockets, tasks
//! and channels belong to the program around it, which hands over what it met
//! and carries out what it is told.
//!
//! * [`envelope`] and [`body`]: the messages and their bytes;
//! * [`codec`]: length-prefixed framing, with [`WireCodec`] between a byte
//!   stream and envelopes;
//! * [`client`]: the state that callers share on one connection;
//! * [`server`]: handlers, routing and replies;
//! * [`macros`] and [`stub`]: typed clients and servers generated from a trait,
//!   and what the generated code calls;
//! * [`error`]: what can go wrong.
//!
//! Every function states in its contract what it returns. Public proof
//! functions whose names start with `law_` state what holds across functions:
//! that what was written is what is read, that an answer reaches its caller,
//! that no call in flight is forgotten.

pub mod body;
pub mod client;
pub mod codec;
pub mod envelope;
pub mod error;
pub mod macros;
pub mod server;
pub mod stub;

pub use client::Client;
pub use codec::WireCodec;
pub use envelope::{Envelope, ErrorData, RequestData, ResponseData};
pub use error::{PatinaError, RpcError, WireError};
pub use macros::service;
pub use server::{handler_fn, Handler, HandlerError, Server, ServerBuilder};
