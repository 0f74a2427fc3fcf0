//! Requirements-traceability linker.
//!
//! Scans source text for trace markers (a literal identifier prefix followed
//! by a requirement identifier), loads requirement documents into a registry,
//! and correlates the two: for every requirement, the source locations that
//! reference it, plus the traces that reference no known requirement.

pub mod config;
pub mod correlate;
pub mod laws;
pub mod path_filter;
pub mod record;
pub mod registry;
pub mod scanner;
pub mod searcher;
pub mod yaml;

pub use config::TraceConfig;
