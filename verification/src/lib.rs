//! Verified reconciliation engine for a configuration-materializing
//! controller.
//!
//! A `ConfigSet` declares named inputs (values read from key/value
//! resources), named targets (key/value resources to write), and templates
//! (flat `{{variable}}` substitutions of the inputs) whose rendered values
//! are written into the targets.  This crate holds the engine that resolves
//! inputs, provisions targets, renders templates, writes the results back
//! idempotently and unwinds them on cleanup.  All store traffic itself is
//! left to the embedding program; the engine works on an in-memory model of
//! the relevant resources.

pub mod api;
pub mod engine;
pub mod errors;
pub mod kvmap;
pub mod laws;
pub mod policy;
pub mod render;
pub mod resource;
