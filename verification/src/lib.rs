//! Core of a local development HTTP server: a capability router that
//! dispatches requests to static-file, reverse-proxy and not-found handlers,
//! and a response-rewrite pipeline that buffers, decodes, transforms and
//! re-encodes text bodies while leaving everything else streaming untouched.

pub mod browser_sync;
pub mod bytes;
pub mod codec;
pub mod control;
pub mod config;
pub mod http;
pub mod json;
pub mod not_found;
pub mod output;
pub mod pipeline;
pub mod proxy;
pub mod router;
pub mod rules;
pub mod static_files;
pub mod urlparts;
pub mod vfs;
