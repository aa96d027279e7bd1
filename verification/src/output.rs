//! What the pipeline hands to the renderer.

pub mod report;
