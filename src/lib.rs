//! Streaming fuzzy selection over structured values: option parsing, pre-selection
//! policies, generation bookkeeping for producers and dynamic requery, and the
//! value that a finished session hands back.
pub mod cli;
pub mod generation;
pub mod options;
pub mod outcome;
pub mod selector;
pub mod text;
