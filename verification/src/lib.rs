//! Native memory engine: a store of entities and claims kept in SQLite,
//! with lexical recall, graph traversal and bearer-token checks.

pub mod store;
pub mod text;
pub mod auth;
pub mod models;
pub mod services;
pub mod db;
pub mod ranking;
pub mod api;
pub mod runtime;
pub mod laws;
