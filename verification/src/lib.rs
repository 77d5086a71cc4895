//! Bridge between a brokerage's web API and a portfolio tracker's import
//! format: symbol resolution, historical-price backfill across enlarging
//! time-period buckets, transaction-CSV normalization, and the small pieces
//! of text assembly that feed the clipboard sink.
//!
//! Network, clipboard, terminal prompts and the config file live outside this
//! crate; the decisions and data reshaping live here, each with a contract.

pub mod cli;
pub mod config;
pub mod date;
pub mod error;
pub mod ghostfolio;
pub mod history;
pub mod scraper;
pub mod search;
pub mod stock_info;
pub mod strutil;
pub mod transactions;
