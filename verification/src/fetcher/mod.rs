//! Feed fetching and parsing.
pub mod date;
pub mod fetch;
pub mod rss;
pub mod rsshub;
pub mod xml;

pub use fetch::{FeedCache, FeedFetch, FetchStep};
pub use rss::{parse_feed, Feed, FeedItem};
pub use rsshub::DEFAULT_RSSHUB_URL;
