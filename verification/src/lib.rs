//! Superstition: a library for publishing statistically significant
//! patterns found in a content-addressed data corpus by generated detector
//! programs, with everything needed to reproduce each score.

pub mod args;
pub mod builder;
pub mod codegen;
pub mod corpus;
pub mod detectors;
pub mod fdr;
pub mod feed;
pub mod fetch;
pub mod fixture;
pub mod hash;
pub mod host;
pub mod pipeline;
pub mod prompts;
pub mod render;
pub mod page;
pub mod rng;
pub mod schema;
pub mod scorer;
pub mod sort;
pub mod state;
pub mod text;
