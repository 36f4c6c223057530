//! Synthesizes filesystem-metadata images: a namespace tree of inodes, the
//! placement of block replicas on worker nodes, and the text and byte content
//! of the files that describe them.

pub mod config;
pub mod image;
pub mod inode;
pub mod laws;
pub mod layout;
pub mod manifest;
pub mod materialize;
pub mod namespace;
pub mod output;
pub mod placement;
pub mod random;
pub mod storage;
pub mod text;
