//! Verified core of a project-document backend: an access-scoped document
//! store, a duplication workflow that clones a project together with its
//! object-storage assets, and a health probe decision.
pub mod assets;
pub mod duplicate;
pub mod health;
pub mod ids;
pub mod project;
pub mod store;
