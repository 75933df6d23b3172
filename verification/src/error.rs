//! Error types of the navigator's boundaries, as plain values.

use vstd::prelude::*;

verus! {

/// Reserved for fallible core operations; no core operation fails today.
#[derive(Debug, Clone)]
pub enum NavError {
    Reserved,
}

/// Configuration loading errors. I/O errors are carried as their message.
#[derive(Debug)]
pub enum NavConfigError {
    /// Reading the file failed: path, then the I/O error's message.
    IoRead(String, String),
    /// Writing the file failed: path, then the I/O error's message.
    IoWrite(String, String),
    /// The TOML text did not parse into a configuration.
    Parse(String),
}

/// Errors surfaced by the UI Automation client.
#[derive(Debug)]
pub enum UiaError {
    UnsupportedPlatform,
    /// COM initialization failed with this HRESULT.
    ComInit(i32),
    AutomationCreate(String),
    Operation(String),
    UnsupportedConfiguration(String),
    InvokeNotImplemented,
}

/// Errors from the render worker.
#[derive(Debug)]
pub enum RenderError {
    UnsupportedPlatform,
    Disconnected,
    Win32(String),
    ThreadExited,
}

} // verus!
