//! One console and everything around it: input, speed, time, replays, sound, the link cable.
//!
//! The session core drives an emulator core and says what the rest of the program has to do as a
//! list of effects, in order: what goes into the file being recorded, to whoever follows or plays
//! along, and to the loudspeaker.

pub mod anchors;
pub mod compat;
pub mod driving;
pub mod effects;
pub mod exporting;
pub mod fidelity;
pub mod following;
pub mod joining;
pub mod keeping;
pub mod linking;
pub mod live_playback;
pub mod monitoring;
pub mod pairs;
pub mod placing;
pub mod playback;
pub mod publishing;
pub mod recording;
pub mod running;
pub mod seeking;
pub mod starting;
pub mod state;
pub mod stepping;
pub mod timer;
pub mod turns;
