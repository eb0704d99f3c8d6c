//! Role-gated chat membership management with a verified authorization
//! policy, an in-memory membership relation, and a snowflake-style
//! unique-identifier generator.

pub mod auth;
pub mod ids;
pub mod service;
pub mod store;
