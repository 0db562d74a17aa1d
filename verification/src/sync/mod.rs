//! Synchronisation with the server.

pub mod conflict;
pub mod document;
pub mod engine;
pub mod http;
pub mod pull;
pub mod push;
pub mod signal;
pub mod sse;
