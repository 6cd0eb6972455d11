//! Builds a markdown list of a package's released versions, from a registry's
//! version history or from the tags of a repository, and places it under an
//! existing readme.

pub mod configuration;
pub mod document;
pub mod error;
pub mod git;
pub mod options;
pub mod order;
pub mod package;
pub mod pattern;
pub mod registry;
pub mod render;
pub mod text;
pub mod version;
