//! The Soziopolis site model: sections, article listings, article pages and
//! the browse sessions that walk a section's paginated listing.
pub mod article;
pub mod browse;
pub mod cache;
pub mod dates;
pub mod headlines;
pub mod listing;
pub mod page;
pub mod types;
pub mod walk;
