//! Droplet and tailnet operations: the decisions behind the `tdops` command line.
pub mod text;
pub mod config;
pub mod init;
pub mod digitalocean;
pub mod tailscale;
pub mod commands;
