//! A user-space TCP engine for a layer-3 tunnel: sequence arithmetic, the
//! per-connection state machine, and the table that routes frames to
//! connections. Everything here is pure: frames come in as bytes and leave as
//! bytes, and the caller owns the device, the threads and the locks.

pub mod buffer;
pub mod manager;
pub mod model;
pub mod sequence;
pub mod tcp;
pub mod wire;
