//! Client-side codec for the line-oriented, stream-multiplexed text protocol
//! spoken by an ESP server over a byte-stream transport.
//!
//! The crate turns an arbitrarily fragmented incoming byte stream into a
//! well-ordered sequence of discrete events (text lines and logical-stream-tag
//! changes), and turns outgoing text lines into the server's wire framing.

pub mod decoder;
pub mod encoder;
pub mod error;
pub mod escape;
pub mod event;
pub mod model;
