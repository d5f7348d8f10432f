//! Logic of the built-in ChatGPT Codex provider.

pub mod callback;
pub mod catalog;
pub mod digest;
pub mod http;
pub mod json;
pub mod laws;
pub mod login;
pub mod members;
pub mod pinned;
pub mod providers;
pub mod redact;
pub mod refresh;
pub mod responses;
pub mod secret;
pub mod stream;
pub mod subscription;
pub mod system;
pub mod text;
