//! Lead aggregation: extraction of contact and identity signals from raw text and
//! markup, ranking of commit author addresses, per-source parsing, and the
//! failure-tolerant aggregation of the per-source results.

pub mod clock;
pub mod commits;
pub mod config;
pub mod encoding;
pub mod errors;
pub mod extractors;
pub mod http;
pub mod markup;
pub mod models;
pub mod pattern;
pub mod scraper_util;
pub mod scrapers;
pub mod stats;
pub mod text;
pub mod weburl;
