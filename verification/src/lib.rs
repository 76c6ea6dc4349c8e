//! A scriptable exerciser for the PostgreSQL wire protocol: it encodes
//! requests, reassembles response frames from a byte stream, and renders each
//! frame as one line of a trace.

pub mod conn;
pub mod directive;
pub mod json;
pub mod request;
pub mod session;
pub mod text;
pub mod trace;
pub mod wait;
pub mod wire;
