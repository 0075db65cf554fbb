//! Live memory access for the RAM tools (viewer, search, watch, editing, freezing).

pub mod values;
pub mod request;
pub mod shared;
pub mod local;
pub mod service;
pub mod watching;
