//! The search strategies that drive one pass of minimization.
pub mod common;
pub mod engine;
pub mod general;
pub mod general_multi;
pub mod pedantic;
