//! A verified core for a disk-cleanup tool.
//!
//! The library classifies files into cleanup categories, filters and
//! aggregates scanned directory entries, detects byte-identical duplicates
//! by size bucketing and content hashing, tallies reclaimed space, and
//! coordinates the three operations through a polled progress cell.
//! All filesystem access is left to the caller, which feeds the library
//! plain paths, sizes and ages, and performs the deletions it decides.

pub mod cleaner;
pub mod config;
pub mod duplicate_finder;
pub mod file_category;
pub mod hashing;
pub mod progress;
pub mod scanner;
pub mod text;
