//! Energy accounting for a profiled command: counter snapshots, wrap-aware
//! counter differences and phase assembly.

pub mod cli;
pub mod cmd;
pub mod config;
pub mod counter_map;
pub mod errors;
pub mod measure;
pub mod output;
pub mod rapl;
pub mod text;
