//! On-page SEO analysis: extraction of page signals from an HTML document,
//! a fixed set of rules that turn them into issues, a score, and a sitemap
//! serializer.
//!
//! The library works on text that is already in memory. Fetching a page and
//! the floating-point forms of its results are left to the caller.

pub mod analyzer;
pub mod dom;
pub mod issues;
pub mod keywords;
pub mod links;
pub mod meta;
pub mod report;
pub mod sitemap;
pub mod text;

pub use analyzer::AnalysisError;
pub use analyzer::SeoAnalyzer;
pub use meta::MetaAnalyzer;
pub use report::IssueSeverity;
pub use report::KeywordCount;
pub use report::SeoIssue;
pub use report::SeoReport;
pub use sitemap::Sitemap;
pub use sitemap::SitemapGenerator;
pub use sitemap::SitemapUrl;
