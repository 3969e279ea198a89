//! Synchronizes remote RSS/Atom feed sources into a persisted feed collection.
//!
//! The library holds the verified core: parsing the human-authored recency
//! offset, deriving calendar cutoff dates, filtering fetched entries by date,
//! deduplicating against previously persisted links, and selecting the items
//! to persist. Network and persistence I/O live outside the library and hand
//! plain values in and out.

pub mod config;
pub mod dates;
pub mod entry;
pub mod feed_item;
pub mod feeds;
pub mod notion;
pub mod source;
pub mod text;

