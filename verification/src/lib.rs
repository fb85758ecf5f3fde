//! A JSON-driven pipeline execution engine.
//!
//! A pipeline is a named, ordered list of typed steps. Running it threads a
//! JSON document through the steps in order: every step receives the output of
//! the step before it, and the first failing step ends the run.

pub mod number;
pub mod json;
pub mod text;
pub mod model;
pub mod outcome;
pub mod text_processing;
pub mod clock;
pub mod condition;
pub mod steps;
pub mod serialize;
pub mod data_transform;
pub mod run;
pub mod samples;
pub mod bridge;
pub mod executor;
pub mod laws;
