//! Filtered-search and hierarchical-materialization engine for a rhythm-game
//! beatmap catalog.
//!
//! The library models the search pipeline over plain values: a composable
//! filter model, a predicate builder that turns filter facets into a
//! parameterized query fragment, a candidate selector with paginated and
//! random-sample modes, a row-to-tree materializer, and a bounded
//! representative-subset selector.  Continuous attributes (ratings, tempo,
//! skillset scores) are carried as fixed-point integers; conversion from the
//! store's arbitrary-precision decimals happens at the unverified boundary.

pub mod candidate;
pub mod common;
pub mod filters;
pub mod fragment;
pub mod full;
pub mod laws;
pub mod materialize;
pub mod pending;
pub mod rate;
pub mod rows;
pub mod search;
pub mod short;
pub mod simple;
pub mod store;
pub mod subset;
pub mod text;
