//! Certificate expiry probing: the decisions behind a batch run.
//!
//! A run takes a list of host names, learns for each one how its TLS
//! handshake went, and turns that into one row per host, ordered so that the
//! certificate closest to expiry comes first and hosts that could not be
//! read come last. Connecting, waiting and rendering are left to the caller;
//! everything decided about the data is here.

pub mod aggregate;
pub mod classify;
pub mod clock;
pub mod domains;
pub mod fetch;
pub mod outcome;
pub mod report;
pub mod schedule;
