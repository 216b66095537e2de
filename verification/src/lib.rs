//! A hierarchical file namespace kept in a closure table, with the layout
//! of the file store behind it, the classification of media, and the rules
//! by which downloaded media is taken in.
//!
//! The namespace is a tree of named nodes. Beside the parent pointer of
//! each node, a closure table holds one row for every pair of a node and one
//! of its ancestors, itself included, with the distance between the two.
//! Every operation is verified to keep the tables well-formed, and states
//! exactly what it does to them.

pub mod cookie;
pub mod downloader;
pub mod ids;
pub mod media;
pub mod review;
pub mod routes;
pub mod storage;
pub mod text;
pub mod user;
pub mod vfs;
