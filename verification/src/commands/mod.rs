//! The decisions of the tool's subcommands.
pub mod power;
pub mod serve;
pub mod status;
