//! Verified core of a serial-port daemon: the request model, the per-client
//! receive buffers, the port/log registry, the command-line parser of the
//! interactive client and the rendering of replies.

pub mod codec;
pub mod daemon;
pub mod json;
pub mod protocol;
pub mod render;
pub mod repl;
pub mod sdk;
pub mod serial;
pub mod session;
pub mod table;
pub mod text;
