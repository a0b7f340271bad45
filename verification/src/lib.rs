//! Platform glue for running Codex inside an iOS host application: JSON
//! payloads describing unsupported operations, NUL-terminated message
//! buffers shared with the host, callback status handling, handle
//! registries, and the decision logic of the code-mode bridge and the
//! embedded app-server.
pub mod app_server;
pub mod buffer;
pub mod cancel;
pub mod code_mode;
pub mod json;
pub mod payloads;
pub mod platform;
pub mod process;
pub mod registry;
pub mod text;

