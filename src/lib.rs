//! Locating, querying and rewriting the version declarations of Cargo
//! manifests, with every byte outside an edited literal kept as it was.

pub mod syntax;
pub mod text;
pub mod model;
pub mod extract;
pub mod edit;
pub mod update;
pub mod manifest;
pub mod search;
pub mod paths;
pub mod display;
pub mod records;
pub mod verbosity;
pub mod config;
pub mod publish;
pub mod scan;
pub mod increase;
