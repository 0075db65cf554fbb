//! What a recorded session is made of.

pub mod packet;
pub mod player;
