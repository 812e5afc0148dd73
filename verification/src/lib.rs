//! Platform Data Toolkit: the verified core of a document/asset store.

pub mod auth;
pub mod cedar;
pub mod config;
pub mod docstore;
pub mod graph;
pub mod models;
pub mod order;
pub mod params;
pub mod query;
pub mod search;
pub mod services;
pub mod store;
pub mod tenant;
pub mod text;
