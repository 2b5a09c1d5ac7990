//! Routing, dispatch and binding generation for JSON-RPC servers and their
//! command-line clients, with the handler tree and its decisions verified.

pub mod value;
pub mod handler;
pub mod util;
pub mod ts;
pub mod error;
pub mod assoc;
pub mod command;
pub mod context;
pub mod server;
pub mod cli;
pub mod attrs;
pub mod middleware;
pub mod stream;
