//! Error-reporting and resource-identity core of a native library exposed
//! across a flat C-callable boundary.
//!
//! The crate provides: a closed, numerically partitioned error taxonomy
//! shared by every subsystem; a per-thread "last error" context that lets a
//! caller retrieve diagnostics after a failing call; an opaque-handle
//! identity scheme for five independent resource namespaces; and a one-shot
//! global runtime configuration surface.

pub mod boundary;
pub mod config;
pub mod config_json;
pub mod error_code;
pub mod error_context;
pub mod handles;
pub mod json_out;
