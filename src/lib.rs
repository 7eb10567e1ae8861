//! Season schedule synchronisation: the canonical schedule model, the
//! field-by-field diff engine, next-race selection and the recipient list
//! rules, each with its contract.

pub mod calendar;
pub mod config;
pub mod diff;
pub mod document;
pub mod fetch;
pub mod model;
pub mod paths;
pub mod recipients;
pub mod sync;
