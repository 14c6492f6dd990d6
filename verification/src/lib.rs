//! A graph of the packages of a workspace and the dependencies between them,
//! reconstructed from the declared requirements of each package and the
//! separately resolved dependency data.

pub mod errors;
pub mod graph;
pub mod metadata;
pub mod petgraph_support;
pub mod platform;
pub mod strings;
pub mod version;
