//! A small HTTP/1.1 server core: a reusable buffer pool, a zero-copy request
//! parser, a path-template router, a response serializer, and the server's
//! route table and lifecycle.
//!
//! The modules here hold the data structures and algorithms; reading from and
//! writing to sockets is left to the embedding program.

pub mod buffer_pool;
pub mod connection;
pub mod error;
pub mod request;
pub mod response;
pub mod routing;
pub mod scan;
pub mod server;
pub mod status;

pub use buffer_pool::BufferPool;
pub use connection::{connection_step, ConnectionEvent, ConnectionState};
pub use error::ServerError;
pub use request::{Method, ParseFailure, Request};
pub use response::Response;
pub use routing::{Handler, IndexHandler, Route, RouteMatch};
pub use routing::{index, match_route};
pub use server::{Server, ServerState};
