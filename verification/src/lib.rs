//! Periodic updater for geolocation databases.
//!
//! The library holds the logic of the update cycle: the freshness oracle
//! that decides when a refresh is due, the plan of artifacts to fetch, the
//! staged-publish protocol that commits a new snapshot atomically through a
//! version-marker rename, and the loader that turns the country metadata
//! CSV into a keyed table. Network and filesystem work is performed by the
//! surrounding application, which drives the protocol step by step.

pub mod errors;
pub mod parse;
pub mod freshness;
pub mod country;
pub mod fetch;
pub mod publish;
