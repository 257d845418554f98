//! The verified core of the `barista` command line: how a project is located,
//! how a build is planned and driven, and what is reported about it.

pub mod action_graph;
pub mod calendar;
pub mod cli;
pub mod cmd;
pub mod daemon;
pub mod digest;
pub mod facts;
pub mod lockfile;
pub mod output;
pub mod paths;
pub mod project;
pub mod text;
