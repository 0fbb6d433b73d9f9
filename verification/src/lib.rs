//! The decisions behind an OpenTelemetry tracing extension for PostgreSQL.

pub mod bgw;
pub mod config;
pub mod exporter;
pub mod hooks;
pub mod json;
pub mod laws;
pub mod lexer;
pub mod parser;
pub mod shared;
pub mod span;
pub mod status;
pub mod text;
pub mod wait_events;
