//! The cached directory tree.
pub mod dir_tree;
pub mod flags;
pub mod inode;
pub mod inode_laws;
pub mod path_laws;
pub mod request_laws;
pub mod tree_laws;
pub mod tree_view;
