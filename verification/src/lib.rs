//! Batch image downloading, verified at its core.
//!
//! The library plans and accounts for a run that fetches a configurable
//! number of images from a remote endpoint and saves them under a target
//! directory, the work split into one contiguous batch of jobs per worker.
//! Command-line parsing, job naming, directory resolution, partitioning and
//! result aggregation are all verified; the surrounding process performs the
//! network and file work and hands each job's outcome back to the library.

pub mod args;
pub mod controller;
pub mod digits;
pub mod dimension;
pub mod error;
pub mod job;
pub mod schedule;
