//! A small portfolio-listing backend, verified.
//!
//! The crate models a single `projects` resource: records with a
//! store-assigned integer id, a required title, and two optional text
//! fields. `store` holds the resource table and its invariants, `api`
//! maps requests onto the table and onto HTTP statuses, `parse` reads
//! the id path segment, and `laws` states the properties that hold of
//! the whole.

pub mod api;
pub mod laws;
pub mod parse;
pub mod project;
pub mod store;
