//! A crawler that turns many small remote documents into one record per
//! tracked entity: request generation, locator resolution, extraction,
//! admission control and aggregation, each with a verified contract.
//! Beside it stand a SQL dialect whose table names may be URLs, and the
//! reading of `key=value` request arguments.

pub mod aggregate;
pub mod decoding;
pub mod dialect;
pub mod fetcher;
pub mod generate;
pub mod kv;
pub mod locator;
pub mod model;
pub mod numeric;
pub mod parser;
pub mod report;
pub mod schedule;
pub mod series;

