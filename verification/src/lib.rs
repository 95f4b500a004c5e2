//! The server side of an inter-process communication protocol.

pub mod array;
pub mod buffer;
pub mod byte_laws;
pub mod client;
pub mod commands;
pub mod context;
pub mod domain;
pub mod exchange;
pub mod headers;
pub mod hipc;
pub mod holder;
pub mod holder_laws;
pub mod holders;
pub mod manager;
pub mod message;
pub mod params;
pub mod ready;
pub mod release;
pub mod results;
pub mod server_laws;
pub mod serving_laws;
pub mod sf;
pub mod sm;
pub mod tables;
pub mod values;
pub mod wire_laws;
