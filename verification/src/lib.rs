//! Crawl-and-cache pipeline for build results of a continuous-integration
//! web front end: selecting builds whose dependency failed, extracting the
//! failing dependency from detail pages, deduplicating records per job, and
//! committing cache entries atomically.

pub mod accum;
pub mod bytes;
pub mod cache;
pub mod extract;
pub mod page;
pub mod sched;
pub mod upstream;
