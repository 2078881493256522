//! A verified core for a control-plane service that provisions ephemeral
//! database instances inside a Kubernetes cluster: rendering a parameterized
//! multi-document manifest template, resolving arbitrary object kinds
//! against live API discovery, planning idempotent applies, and
//! reconstructing instance identity from object labels alone.
pub mod apply;
pub mod auth;
pub mod credentials;
pub mod discovery;
pub mod manifest;
pub mod models;
pub mod registry;
pub mod render;
pub mod text;
