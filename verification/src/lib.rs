//! Cubed: the verified core of a local Minecraft server manager.
//!
//! The library holds the rules of the manager as verified Rust: the records
//! and their tables, server life cycles, console history, Java and software
//! selection, download locations, modpack and mod installation plans,
//! backups, settings, ports and Tailscale state, and what the user
//! interface is shown. Processes, files, the network and the clock are
//! left to the caller.

pub mod backup;
pub mod commands;
pub mod console;
pub mod downloader;
pub mod entities;
pub mod error;
pub mod integrity;
pub mod java;
pub mod layout;
pub mod lifecycle;
pub mod modpack;
pub mod mods;
pub mod order;
pub mod paths;
pub mod ports;
pub mod records;
pub mod repo;
pub mod resources;
pub mod settings;
pub mod software;
pub mod stamps;
pub mod tailscale;
pub mod text;
