//! Errors reported by the library's operations.

use vstd::prelude::*;
use crate::entities::ServerStatus;
use crate::software::ServerSoftware;

verus! {

/// Why an infrastructure operation was refused.
#[derive(Debug)]
pub enum CubedError {
    /// The Java installation is older than the Minecraft version needs.
    JavaTooOld { minecraft_version: String, required: u32, found: u32 },
    /// No detected Java installation is recent enough.
    NoCompatibleJava { required: u32 },
    /// The download URL of this software can only be resolved online.
    OnlineResolutionRequired { software: ServerSoftware },
    /// The Paper API lists no build for the version.
    NoPaperBuilds { minecraft_version: String },
    /// The Fabric API lists no loader for the version.
    NoFabricLoader { minecraft_version: String },
    /// The Fabric API lists no installer.
    NoFabricInstaller,
    /// Forge promotes no build for the version.
    NoForgeVersion { minecraft_version: String },
    /// NeoForge publishes no build for the version.
    NoNeoForgeVersion { minecraft_version: String },
    /// A stored software name is not one of the known ones.
    UnknownSoftware { value: String },
    /// A stored status name is not one of the known ones.
    UnknownStatus { value: String },
    /// A stored modpack format is not one of the known ones.
    UnknownModpackFormat { value: String },
    /// The port is below the first unprivileged port.
    PortReserved { port: u16 },
    /// The port is taken by another process.
    PortBusy { port: u16 },
    /// No free port remains from `start` on.
    NoFreePort { start: u16 },
    /// No console has been opened for the server.
    NoConsole { server_id: u128 },
    /// The server's console has no standard input attached.
    StdinUnavailable,
    /// The path has no file name.
    InvalidPath { path: String },
    /// The file name does not end in `.jar`.
    NotAJar { file_name: String },
    /// The file does not start with the ZIP signature.
    InvalidJarHeader { path: String },
    /// The requested status change is not allowed from the current status.
    InvalidTransition { from: ServerStatus },
    /// The server is starting or stopping.
    ServerBusy,
    /// The server must be stopped first.
    ServerNotStopped,
    /// The `tailscale` command could not be run.
    TailscaleUnavailable,
}

} // verus!
