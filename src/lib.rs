//! Indexing and querying of music-production project files: plugin-format
//! classification, schema negotiation against a vendor plugin database,
//! candidate discovery, batched ingestion, progress reporting, a project
//! store and a ranked full-text search engine.

pub mod text;
pub mod format;
pub mod project;
pub mod store;
pub mod ingest;
pub mod query;
pub mod search;
pub mod schema;
pub mod discovery;
pub mod progress;
pub mod line_buffer;
pub mod scan;
pub mod reconcile;
pub mod report;
