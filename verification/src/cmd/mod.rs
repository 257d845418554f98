//! The commands.

pub mod ci_repro;
pub mod dial_in;
pub mod grind;
pub mod maven_vocab;
pub mod no_daemon;
pub mod pour;
pub mod pull;
pub mod reactor;
pub mod schedule;
pub mod shot;
pub mod tap;
pub mod verify;
pub mod wrapper;
