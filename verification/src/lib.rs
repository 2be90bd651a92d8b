//! Game-save statistics pipeline: extracts a normalized historical record
//! of player-controlled polities from a decoded save document and persists
//! it idempotently, atomically and append-only into a relational store
//! model.
//!
//! The flow for one file: `digest` computes its content identity;
//! `pipeline` gates on it, has `resolver` enumerate the player polities
//! from the `document` model, derives each polity's `snapshot`, normalized
//! `events` and annual `income` series, and commits everything as one unit
//! into the `store`. `auth` holds the credential and token logic, `text`
//! the fixed-point amounts and the verified rendering and parsing they
//! need, and `errors` the closed error taxonomy.
pub mod auth;
pub mod digest;
pub mod document;
pub mod errors;
pub mod events;
pub mod income;
pub mod pipeline;
pub mod resolver;
pub mod snapshot;
pub mod store;
pub mod text;
