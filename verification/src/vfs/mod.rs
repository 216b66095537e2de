//! The hierarchical namespace and the tables behind it.

pub mod api;
pub mod commit;
pub mod files;
pub mod laws;
pub mod model;
pub mod namespace;
pub mod placement;
pub mod shared;
pub mod store;
