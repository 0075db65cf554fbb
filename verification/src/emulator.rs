//! Functionality for emulator cores.

pub mod console;
pub mod controls;
pub mod game_boy_advance;
pub mod game_boy_color;
pub mod gb_link;
pub mod gb_serial;
pub mod input;
pub mod link;
pub mod memory;
pub mod nintendo_3ds;
pub mod nintendo_ds;
pub mod null;
pub mod pacing;
pub mod varint;
