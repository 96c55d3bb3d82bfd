//! An HTTP/1.x protocol engine for small devices: a request parser over a
//! fixed buffer, fixed-capacity header storage, and a response writer whose
//! phases are distinct types.

pub mod config;
pub mod error;
pub mod grammar;
pub mod header_map;
pub mod headers;
pub mod parser;
pub mod reader;
pub mod request;
pub mod roundtrip;
pub mod routing;
pub mod server;
pub mod status;
pub mod utils;
pub mod writer;
