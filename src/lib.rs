//! Rule matching for a logging instrumentation transform.
//!
//! A configuration maps attribute names to logging rules. The library picks
//! and evaluates the configuration module (`loader`), checks what the
//! evaluation printed (`config`), indexes the rules (`rules`), and walks a
//! markup syntax tree (`tree`, `visitor`) in pre-order, matching each plain
//! `data-` attribute of each element against the index. `transform` decides,
//! event by event, what the transform does next; `order` proves the shape of
//! the walk.

pub mod config;
pub mod loader;
pub mod order;
pub mod rules;
pub mod transform;
pub mod tree;
pub mod visitor;
