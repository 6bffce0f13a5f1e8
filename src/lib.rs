//! Crawling a paginated book catalogue: URL construction, record extraction
//! and the decisions of the crawl, with their contracts.

pub mod site_url;
pub mod text;
pub mod book;
pub mod crawl;
pub mod page;
