//! The enrichment sources.

pub mod blind;

pub use blind::BlindEnricher;
