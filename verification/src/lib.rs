//! A test-orchestration engine: it parses the output of running test
//! binaries, tracks every test's state, orders fixtures by their
//! dependencies and folds outcomes into a result model.

pub mod assertions;
pub mod clock;
pub mod error;
pub mod executable;
pub mod fixtures;
pub mod ids;
pub mod internal;
pub mod json;
pub mod line_buffer;
pub mod multiplexer;
pub mod names;
pub mod ordered;
pub mod outcome;
pub mod output;
pub mod parser;
pub mod reporting;
pub mod runners;
pub mod suite;
pub mod test;
pub mod server;
pub mod text;
pub mod tracker;
pub mod types;
pub mod utils;
