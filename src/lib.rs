//! Scaffolding, editing and bundling of plugin projects: a manifest
//! (`plugin.json`) with widgets and nodes whose files are found by naming
//! convention, and the self-contained bundle (`.opb`) that carries them all.

pub mod bundle;
pub mod command;
pub mod files;
pub mod lifecycle;
pub mod manifest;
pub mod models;
pub mod naming;
pub mod templates;
