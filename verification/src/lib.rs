//! Encoding of recorded controller input movies into the fixed-size blocks a
//! playback device accepts, and the host side of the block transfer protocol,
//! written as a state machine that performs no I/O itself.

pub mod device;
pub mod error;
pub mod layout;
pub mod parsers;
pub mod program;
pub mod runs;
pub mod session;
pub mod transfer;
