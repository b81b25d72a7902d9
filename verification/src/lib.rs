//! Deterministic network planning for portable infrastructure.
//!
//! The library holds the typed configuration model, the validation rules
//! applied to a loaded configuration, and the resolvers that turn stable
//! intent into provider-neutral plans.

pub mod adapter;
pub mod adapters;
pub mod cli;
pub mod config;
pub mod text;
pub mod model;
pub mod net;
pub mod observe;
pub mod ordered;
pub mod paths;
pub mod plan;
pub mod resolve;
pub mod table;
pub mod validate;
