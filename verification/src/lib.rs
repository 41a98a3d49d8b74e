//! Decision logic of a self-hosted continuous-deployment daemon.
//!
//! The daemon watches a repository for new commits, clones each one into a
//! fresh workspace, builds the configured services, moves the build output
//! into place and brings the host services up to date. Everything that
//! decides what to do next lives here. Of the outside world the library
//! itself only asks the file system whether a path exists; the caller reads
//! the clock, talks to the network, runs the processes and writes the files
//! that the decisions ask for, and reports how each of them ended.

pub mod generate_conf;
pub mod run_deployer;
pub mod text;
