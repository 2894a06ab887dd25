//! A verified core for a line-oriented novel downloader: parsing grouped
//! source lists into work units, classifying sources by URL, planning
//! fetches, extracting page text, and bounding concurrent fetches.
//!
//! - [`text`]: character-level string utilities all contracts build on
//! - [`list_parser`]: the source-list grammar and its grouping laws
//! - [`source`]: source descriptors, site strategies and fetch planning
//! - [`extract`]: structural extraction and per-site cleanup
//! - [`processor`]: ordered assembly of one unit's output
//! - [`governor`]: the bounded permit pool for concurrent fetches
//! - [`clock`]: the timestamp that names unrenamed units

pub mod clock;
pub mod extract;
pub mod governor;
pub mod list_parser;
pub mod processor;
pub mod source;
pub mod text;
