//! Link layer for a small attitude-control peripheral: a resynchronizing
//! codec for its binary telemetry/command frames, and the lifecycle rules of
//! the single exclusive session through which those frames travel.

pub mod codec;
pub mod my_frame;
pub mod session;
