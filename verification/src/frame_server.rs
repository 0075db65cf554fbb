//! The frame server: pictures of a replay over a pipe.

pub mod protocol;
pub mod round_trip;
pub mod server;
pub mod serving;
pub mod source;
pub mod walk;
pub mod wire;
