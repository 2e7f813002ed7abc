//! Reconciliation and content-addressing core for a song-cover sync tool.
//!
//! The library matches catalog entries against a set of expected chart
//! variant keys, classifies entries into a fixed category taxonomy, derives a
//! content-addressed asset identifier for each match, and merges artist
//! metadata into an insertion-ordered store. File, network and command-line
//! concerns live outside the library and exchange plain values with it.

pub mod addresser;
pub mod category;
pub mod info;
pub mod keys;
pub mod keyspace;
pub mod pipeline;
pub mod text;
