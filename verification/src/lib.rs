//! Seeding library for a synthetic hospital triage dataset.
//!
//! The core of the library is the proportional capacity partitioner: it
//! distributes a hospital's total bed capacity across a fixed ordered list
//! of triage categories from sampled share weights, and guarantees an
//! exact, integer partition of the total with at least one bed per
//! category whenever the total allows it.
//!
//! Around the partitioner stand the weight sampler, the per-category
//! enrichment (waiting times), and the planning functions that turn
//! blueprints into the records a storage collaborator persists. All
//! storage and network I/O lives outside this crate; the library only
//! computes plans and interprets outcomes.

pub mod categories;
pub mod hospitals;
pub mod partition;
pub mod patients;
pub mod routes;
pub mod sampling;

