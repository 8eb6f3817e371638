//! Matches records that have no settings against records that have some, by
//! the similarity of their names, and hands each match the settings of the
//! record it matched.

pub mod error;
pub mod float;
pub mod laws;
pub mod matcher;
pub mod metric;
pub mod product;
pub mod settings;
