//! Planning and bookkeeping for segmented, concurrent HTTP downloads.
//!
//! The library decides; its caller does the requests, the waiting and the
//! writing. It says what kind of resource a URL leads to, into which byte
//! intervals the resource is cut, under which name it is stored, which
//! segment starts next, and when a failed segment is tried again.

pub mod client;
pub mod config;
pub mod constant;
pub mod decimal;
pub mod dto;
pub mod encoding;
pub mod filename;
pub mod headers;
pub mod manager;
pub mod plan;
pub mod playlist;
pub mod pool;
pub mod response;
pub mod retry;
pub mod segment;
pub mod text;
pub mod urls;
pub mod user_agent;
