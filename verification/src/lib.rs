//! Release planning: commit classification, version calculation and
//! configuration resolution for multi-package repositories.

pub mod text;
pub mod error;
pub mod config;
pub mod version;
pub mod pattern;
pub mod analyzer_config;
pub mod cli;
pub mod commit;
pub mod forge;
pub mod group;
pub mod release;
pub mod strategy;
pub mod increment;
pub mod helpers;
pub mod analyzer;
pub mod paths;
pub mod resolver;
pub mod manifest;
pub mod packages;
pub mod release_pr;
pub mod publish;
pub mod laws;
