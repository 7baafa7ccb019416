//! Fixtures: named values that tests depend on, set up before the tests of
//! their scope and torn down after them.

pub mod dependency;
pub mod lifecycle;
pub mod scope;
