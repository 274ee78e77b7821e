//! How files, inodes and handles look in the state file.
pub mod file_laws;
pub mod handle;
pub mod inode;
pub mod state_file;
pub mod status;
