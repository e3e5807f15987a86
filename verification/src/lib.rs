//! Core of a file-integrity-monitoring agent: scope matching for filesystem
//! rules, enrichment of raw change notifications into audit events, and
//! ordered dispatch of those events to the configured sinks.

pub mod config;
pub mod event;
pub mod pipeline;
pub mod scope;
pub mod strutil;
