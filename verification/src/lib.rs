//! Screening of named subjects against consolidated watchlists.
//!
//! The crate normalizes heterogeneous roster data into a canonical subject
//! model, retrieves fuzzy candidates from an in-memory index, scores them
//! with explicit capping rules, bands the result into risk levels, and keeps
//! monitored subscriptions with change detection.  Scores are fixed-point
//! integers in ten-thousandths, so that the scoring rules can be stated and
//! proved exactly.

pub mod analytics;
pub mod audit;
pub mod auth;
pub mod batch;
pub mod engine;
pub mod fetcher;
pub mod indexer;
pub mod matching;
pub mod model;
pub mod monitoring;
pub mod normalize;
pub mod parser_canada;
pub mod parser_eu;
pub mod parser_ofac;
pub mod parser_switzerland;
pub mod parser_uk;
pub mod parser_un;
pub mod pep_eu_commission;
pub mod pep_eu_parliament;
pub mod pep_us_congress;
pub mod risk;
pub mod screening;
pub mod similarity;
pub mod store;
pub mod strutil;
pub mod subject;
pub mod tenant;
pub mod webhooks;
pub mod xmlscan;
