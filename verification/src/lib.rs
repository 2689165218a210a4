//! A line-delimited JSON-RPC server core for a mail-sending tool.
//!
//! The crate verifies the protocol engine: decoding a line into a request,
//! dispatching by method name, validating tool arguments, building the MIME
//! document for an outgoing message, and serializing the response line.
//! The network transport (OAuth and the HTTP upload) stays outside, behind
//! a small set of plain-value boundaries.

pub mod chars;
pub mod json;
pub mod laws;
pub mod mime;
pub mod parse;
pub mod protocol;
pub mod ser;
