//! A line-oriented text search engine core: query matching, filename
//! filtering, per-file context windows and result aggregation.

pub mod config;
pub mod document;
pub mod engine;
pub mod filter;
pub mod laws;
pub mod matcher;
pub mod render;
pub mod scan;
pub mod sink;
pub mod text;

pub use config::{Args, SearchConfig};
pub use engine::{search, search_files, FileContent, FileInput, ResultStream};
pub use filter::FileEntry;
pub use matcher::{ConfigError, QueryMatcher};
pub use scan::{ScanEvent, Transcript};
pub use sink::{ContextKind, SearchResult, SearchSink, SinkError};
