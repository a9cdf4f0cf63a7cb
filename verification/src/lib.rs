//! Crawl engine for job-posting listings: record model, page collection with
//! de-duplication, per-record stages with failure isolation, and enrichment.

pub mod clients;
pub mod collector;
pub mod crawler;
pub mod enricher;
pub mod enrichers;
pub mod error;
pub mod markup;
pub mod models;
pub mod pattern;
pub mod pipeline;
pub mod pool;
pub mod stage;
pub mod text;
pub mod utils;
pub mod writer;

pub use clients::{
    SaraminClient, SaraminCrawlConfig, SaraminJobCategory, WantedClient, WantedCrawlConfig,
    WantedJobCategory, WantedJobSubcategory,
};
pub use collector::PageCollector;
pub use crawler::{JobFieldExtractor, JobListInfiniteScrollCrawler, JobListPaginatedCrawler};
pub use enricher::EnricherConfig;
pub use enrichers::BlindEnricher;
pub use error::CrawlError;
pub use models::Job;
pub use pipeline::{
    Crawler, CrawlPipeline, DetailCrawler, DetailFetcherConfig, JobEnricher, PipelineWithJobs,
};
pub use pool::TabPool;
