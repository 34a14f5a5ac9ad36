//! Energy counters and the sockets they belong to.

pub mod domain;
pub mod snapshot;
