//! Verified core of the Fedora to ArchivesSpace synchronisation tools.
//!
//! The library holds the decisions: which Fedora events matter, how a
//! Fedora resource is recognised in its RDF description, how ArchivesSpace
//! records are addressed, decoded and updated. The network calls are made by
//! the program around it, which hands the library plain values.
mod text;
pub mod urls;
pub mod json;
pub mod error;
pub mod fedora_auth;
pub mod fedora_queue;
pub mod fedora_api;
pub mod aspace_objects;
pub mod aspace_api;
