//! A query engine over an immutable story-archive container: a verified
//! metadata decoder and loader, a filter-query compiler, and the pure parts
//! of the full-text search path.

pub mod dates;
pub mod decode;
pub mod encode;
pub mod error;
pub mod fetcher;
pub mod filter;
pub mod index;
pub mod interner;
pub mod json;
pub mod matcher;
pub mod package;
pub mod parse;
pub mod query;
pub mod search;
pub mod story;
pub mod text;
