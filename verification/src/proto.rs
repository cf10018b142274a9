//! The channel control protocol: framing, descriptors and messages.

pub mod cbor;
pub mod descriptor;
pub mod error;
pub mod helper;
pub mod laws;
pub mod list;
pub mod message;
pub mod net;
