//! Signal aggregation and narrative post-processing for an ecosystem trend pipeline.

pub mod analysis;
pub mod claude;
pub mod llm;
pub mod output;
pub mod sources;
pub mod text;
pub mod types;
