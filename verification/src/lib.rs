//! A small rule engine over captured execution profiles.
//!
//! A [`profile::Profile`] is a read-only list of timed calls. Each
//! [`rules::Rule`] inspects it and appends one [`analyzer::Diagnostic`] per
//! offending call to an append-only [`analyzer::Context`]. The registry
//! ([`rules::get_all_rules`]) lists the active rules in a fixed order and
//! [`analyzer::analyse`] runs them one after the other.

pub mod analyzer;
pub mod profile;
pub mod rules;
