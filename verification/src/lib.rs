//! A build tool for C++ projects, as a library: the command line is
//! parsed and dispatched, the compiler invocation of a project is planned,
//! stale artifacts are told from fresh ones, and a test harness is
//! generated from the marked functions of the sources. What touches the
//! file system, the network or another process is left to the caller, who
//! hands in what was found there and carries out what is planned here.

pub mod arguments;
pub mod commands;
pub mod compiling;
pub mod harness;
pub mod project;
pub mod text;
pub mod upstream;
