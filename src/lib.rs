//! Resolution of decentralized identifiers (DIDs) through a registry of
//! per-method resolvers, and the decisions that drive credential and
//! presentation verification on top of it.
pub mod did;
pub mod endpoint;
pub mod error;
pub mod registry;
pub mod presentation;
pub mod disclosure;
