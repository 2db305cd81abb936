//! Command-line front end that validates arguments for combining fitness
//! activity data with video files, and, in metrics mode, lists the distinct
//! field names found in an activity file.

pub mod cli;
pub mod decimal;
pub mod fit;
pub mod order;
pub mod report;
