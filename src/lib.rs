//! Host side of a serial control link to a motor and LED board: the command
//! model, its self-delimiting wire frames, port selection, the session's
//! decisions and the motor ramp.

pub mod codec;
pub mod command;
pub mod link;
pub mod port;
pub mod sequencer;
