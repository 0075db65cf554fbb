//! The core of an emulation frontend: replays, link cables, memory tools, video export and the
//! wire protocol of its frame server.

pub mod audio;
pub mod bytes;
pub mod core_thread;
pub mod emulator;
pub mod export;
pub mod frame_server;
pub mod memory_monitor;
pub mod ordered;
pub mod play_together;
pub mod replay;
pub mod session;
pub mod text;
