//! The error taxonomy surfaced to clients. Every error has a human-readable
//! message.

use crate::text::copy_text;
use vstd::prelude::*;
use vstd::string::*;

verus! {

/// An error of the process manager. A variant's payload is the detail that
/// its message ends with.
#[derive(Debug, PartialEq, Eq)]
pub enum Error {
    AppNotFound(String),
    AppAlreadyExists(String),
    DaemonNotRunning,
    DaemonAlreadyRunning,
    BuildFailed(String),
    ProcessStartFailed(String),
    ProcessNotRunning(String),
    ConfigError(String),
    ConfigNotFound(String),
    IpcError(String),
    IpcConnectionFailed(String),
    DbError(String),
    InvalidSelector(String),
    InvalidMode(String),
    FileNotFound(String),
    PermissionDenied(String),
    Timeout(String),
    HealthCheckFailed,
    IoError(String),
    JsonError(String),
    TomlError(String),
    YamlError(String),
}

/// The fixed text that an error's message begins with.
pub open spec fn error_prefix(e: Error) -> Seq<char> {
    match e {
        Error::AppNotFound(_) => "App not found: "@,
        Error::AppAlreadyExists(_) => "App already exists: "@,
        Error::DaemonNotRunning => "Daemon not running"@,
        Error::DaemonAlreadyRunning => "Daemon already running"@,
        Error::BuildFailed(_) => "Build failed: "@,
        Error::ProcessStartFailed(_) => "Process failed to start: "@,
        Error::ProcessNotRunning(_) => "Process not running: "@,
        Error::ConfigError(_) => "Config error: "@,
        Error::ConfigNotFound(_) => "Config file not found: "@,
        Error::IpcError(_) => "IPC error: "@,
        Error::IpcConnectionFailed(_) => "IPC connection failed: "@,
        Error::DbError(_) => "Database error: "@,
        Error::InvalidSelector(_) => "Invalid selector: "@,
        Error::InvalidMode(_) => "Invalid mode: "@,
        Error::FileNotFound(_) => "File not found: "@,
        Error::PermissionDenied(_) => "Permission denied: "@,
        Error::Timeout(_) => "Timeout: "@,
        Error::HealthCheckFailed => "Health check failed"@,
        Error::IoError(_) => "IO error: "@,
        Error::JsonError(_) => "JSON error: "@,
        Error::TomlError(_) => "TOML parse error: "@,
        Error::YamlError(_) => "YAML parse error: "@,
    }
}

/// The detail that an error carries; empty for the three without one.
pub open spec fn error_detail(e: Error) -> Seq<char> {
    match e {
        Error::AppNotFound(s) => s@,
        Error::AppAlreadyExists(s) => s@,
        Error::DaemonNotRunning => Seq::empty(),
        Error::DaemonAlreadyRunning => Seq::empty(),
        Error::BuildFailed(s) => s@,
        Error::ProcessStartFailed(s) => s@,
        Error::ProcessNotRunning(s) => s@,
        Error::ConfigError(s) => s@,
        Error::ConfigNotFound(s) => s@,
        Error::IpcError(s) => s@,
        Error::IpcConnectionFailed(s) => s@,
        Error::DbError(s) => s@,
        Error::InvalidSelector(s) => s@,
        Error::InvalidMode(s) => s@,
        Error::FileNotFound(s) => s@,
        Error::PermissionDenied(s) => s@,
        Error::Timeout(s) => s@,
        Error::HealthCheckFailed => Seq::empty(),
        Error::IoError(s) => s@,
        Error::JsonError(s) => s@,
        Error::TomlError(s) => s@,
        Error::YamlError(s) => s@,
    }
}

/// The human-readable message of an error.
pub open spec fn error_message(e: Error) -> Seq<char> {
    error_prefix(e) + error_detail(e)
}

impl Error {
    /// A configuration error with the given detail.
    pub fn config(msg: &str) -> (e: Error)
        ensures
            e matches Error::ConfigError(s) && s@ == msg@,
    {
        Error::ConfigError(copy_text(msg))
    }

    /// A transport error with the given detail.
    pub fn ipc(msg: &str) -> (e: Error)
        ensures
            e matches Error::IpcError(s) && s@ == msg@,
    {
        Error::IpcError(copy_text(msg))
    }

    /// A registry error with the given detail.
    pub fn db(msg: &str) -> (e: Error)
        ensures
            e matches Error::DbError(s) && s@ == msg@,
    {
        Error::DbError(copy_text(msg))
    }

    /// A spawn failure with the given detail.
    pub fn process_start(msg: &str) -> (e: Error)
        ensures
            e matches Error::ProcessStartFailed(s) && s@ == msg@,
    {
        Error::ProcessStartFailed(copy_text(msg))
    }

    /// The message of this error: its fixed prefix, then its detail.
    pub fn to_string(&self) -> (r: String)
        ensures
            r@ == error_message(*self),
    {
        let mut out = String::new();
        match self {
            Error::AppNotFound(s) => {
                out.append("App not found: ");
                out.append(s.as_str());
            },
            Error::AppAlreadyExists(s) => {
                out.append("App already exists: ");
                out.append(s.as_str());
            },
            Error::DaemonNotRunning => {
                out.append("Daemon not running");
            },
            Error::DaemonAlreadyRunning => {
                out.append("Daemon already running");
            },
            Error::BuildFailed(s) => {
                out.append("Build failed: ");
                out.append(s.as_str());
            },
            Error::ProcessStartFailed(s) => {
                out.append("Process failed to start: ");
                out.append(s.as_str());
            },
            Error::ProcessNotRunning(s) => {
                out.append("Process not running: ");
                out.append(s.as_str());
            },
            Error::ConfigError(s) => {
                out.append("Config error: ");
                out.append(s.as_str());
            },
            Error::ConfigNotFound(s) => {
                out.append("Config file not found: ");
                out.append(s.as_str());
            },
            Error::IpcError(s) => {
                out.append("IPC error: ");
                out.append(s.as_str());
            },
            Error::IpcConnectionFailed(s) => {
                out.append("IPC connection failed: ");
                out.append(s.as_str());
            },
            Error::DbError(s) => {
                out.append("Database error: ");
                out.append(s.as_str());
            },
            Error::InvalidSelector(s) => {
                out.append("Invalid selector: ");
                out.append(s.as_str());
            },
            Error::InvalidMode(s) => {
                out.append("Invalid mode: ");
                out.append(s.as_str());
            },
            Error::FileNotFound(s) => {
                out.append("File not found: ");
                out.append(s.as_str());
            },
            Error::PermissionDenied(s) => {
                out.append("Permission denied: ");
                out.append(s.as_str());
            },
            Error::Timeout(s) => {
                out.append("Timeout: ");
                out.append(s.as_str());
            },
            Error::HealthCheckFailed => {
                out.append("Health check failed");
            },
            Error::IoError(s) => {
                out.append("IO error: ");
                out.append(s.as_str());
            },
            Error::JsonError(s) => {
                out.append("JSON error: ");
                out.append(s.as_str());
            },
            Error::TomlError(s) => {
                out.append("TOML parse error: ");
                out.append(s.as_str());
            },
            Error::YamlError(s) => {
                out.append("YAML parse error: ");
                out.append(s.as_str());
            },
        }
        assert(out@ =~= error_message(*self));
        out
    }
}

} // verus!
