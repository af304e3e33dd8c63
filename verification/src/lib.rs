//! An in-memory key-value store that speaks the Redis serialization
//! protocol: the frame codec, the commands, the store with its expirations,
//! and the decisions of the connection handlers, each with its contract.
use vstd::prelude::*;

pub mod buf;
pub mod client;
pub mod cmd;
pub mod connection;
pub mod cursor;
pub mod db;
pub mod decimal;
pub mod error;
pub mod frame;
pub mod order;
pub mod parse;
pub mod roundtrip;
pub mod server;
pub mod shutdown;
pub mod text;
pub mod time;

pub use cmd::CommandVariant;
pub use connection::Connection;
pub use db::DbState;
pub use error::Error;
pub use frame::Frame;
pub use shutdown::Shutdown;
pub use time::Duration;

verus! {

/// The port that the server listens on unless told otherwise.
pub const DEFAULT_PORT: u16 = 6379;

/// The interface that the server listens on unless told otherwise.
pub const DEFAULT_HOST: &'static str = "0.0.0.0";

} // verus!
