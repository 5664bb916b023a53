//! Detection of network port scans from firewall and authentication logs.
//!
//! Log lines are normalized into observations; each observation updates the
//! activity tracked for its source address, and a source that touches many
//! distinct ports within a short or a long window raises one alert.

pub mod activity;
pub mod store;
pub mod engine;
pub mod clock;
pub mod laws;
pub mod normalize;
pub mod rules;
pub mod address;
pub mod cef;
