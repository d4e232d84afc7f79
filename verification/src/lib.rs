//! Core of a remote-operation manager: it builds the shell command lines for
//! scans, remote file fetches and SSH port-forward tunnels, defines the event
//! protocol through which running operations report progress, keeps the keyed
//! registry of live tunnels, and adapts the credential vault.
//!
//! Process spawning, the event channel and the OS vault itself live outside
//! this crate; everything here is plain data and is verified.

pub mod commands;
pub mod events;
pub mod facade;
pub mod registry;
pub mod shell;
pub mod store;
pub mod text;
pub mod vault;
