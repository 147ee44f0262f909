//! A line relay: lines read from downstream peers are broadcast to every
//! registered client channel, and the upstream link is one such client.

pub mod buffer;
pub mod channel;
pub mod clients;
pub mod line_codec;
pub mod link;
