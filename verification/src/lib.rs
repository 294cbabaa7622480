//! Repository health metrics for GitHub projects: data model, scoring,
//! configuration handling and the pure parts of metric collection.

pub mod cache;
pub mod checks;
pub mod clock;
pub mod config;
pub mod github;
pub mod health;
pub mod issues;
pub mod metrics;
pub mod models;
pub mod order;
pub mod output;
pub mod paths;
pub mod report;
pub mod sections;
pub mod session;
pub mod snapshot;
pub mod stars;
pub mod summary;
pub mod sums;
pub mod text;
pub mod theme;
pub mod velocity;
