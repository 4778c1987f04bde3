//! The decisions behind a clipboard manager's Linux integration.
//!
//! Everything that touches the system (environment variables, child processes, the X11
//! connection, key synthesis) happens outside this crate. What is decided from the
//! answers happens here, on plain values, and every function states exactly what it
//! decides.
pub mod clipboard;
pub mod files;
pub mod json;
pub mod laws;
pub mod paste;
pub mod provider;
pub mod sequence;
pub mod session;
pub mod text;
pub mod window;
