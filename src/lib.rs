pub mod filter;
pub mod laws;
pub mod lines;
pub mod listing;
pub mod pattern;

pub use filter::{find_matches, GrepError, MatchConfig};
pub use listing::{listing_lines, EntryInfo};
