//! A declarative provisioning engine: manifests declare packages to install,
//! the engine orders the manifests by their dependencies, binds every action
//! to a package provider and drives the provider step by step.

pub mod actions;
pub mod bindings;
pub mod config;
pub mod context;
pub mod driver;
pub mod errors;
pub mod graph;
pub mod manifests;
pub mod package;
pub mod providers;
pub mod template;
