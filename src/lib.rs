//! Selects files from a directory listing by a case-insensitive name
//! pattern, optionally thinning out old files at random.

pub mod age;
pub mod guarantees;
pub mod pattern;
pub mod scan;
