//! Telemetry collection for an HTTP gateway's external-processing protocol:
//! rebuilding one event per proxied exchange from the stream of protocol
//! messages, buffering the events, and cutting the buffer into size-bounded
//! batches for upload.

pub mod config;
pub mod dispatch;
pub mod event;
pub mod grpc_service;
pub mod header_table;
pub mod protocol;
pub mod root_context;
pub mod text;
pub mod utils;
