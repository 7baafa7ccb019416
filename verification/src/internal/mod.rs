//! Parts that suites and tests are built from.

pub mod hook;
pub mod mock;
pub mod param;
