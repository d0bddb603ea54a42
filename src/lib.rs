//! A URL shortener's core: short-code allocation and validation, the
//! statements that the link and analytics operations issue against a
//! relational store, the decisions taken between those statements, the
//! aggregation of raw click rows into statistics, and a model of the store's
//! tables over which whole operations are reasoned about.

pub mod analytics;
pub mod auth;
pub mod codes;
pub mod error;
pub mod flows;
pub mod models;
pub mod setup;
pub mod store;
pub mod tables;
pub mod text;
