//! The deployment pipeline.

pub mod command;
pub mod pull;
