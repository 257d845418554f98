//! The build daemon: finding it, starting it, and talking to it again after a crash.

pub mod doubles;
pub mod launcher;
pub mod maven_home;
pub mod respawn;
pub mod workers;
