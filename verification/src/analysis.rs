//! The analysis stages: grouping the signals, and shaping the model's
//! replies into narratives and build ideas.

pub mod aggregator;
pub mod digest;
pub mod ideas;
pub mod synthesizer;
pub mod theorems;
