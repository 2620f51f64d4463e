//! Resumable crawl engine for a paginated article API.

pub mod article;
pub mod calendar;
pub mod failures;
pub mod fetcher;
pub mod laws;
pub mod ledger;
pub mod model;
pub mod page;
pub mod parser;
pub mod text;
pub mod topics;
pub mod urls;

pub use page::Page;
pub use parser::SvtParser;
