//! A runtime for nodes that speak a line-delimited JSON request/response
//! protocol: the handshake, the message envelope and its JSON form, the reply
//! builder, and three sample handlers (echo, unique ids, broadcast).
pub mod json;
pub mod message;
pub mod codec;
pub mod fields;
pub mod node;
pub mod runtime;
pub mod echo;
pub mod unique_ids;
pub mod broadcast;
pub mod standalone;
