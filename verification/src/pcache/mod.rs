//! The write-back page cache.
pub mod buffers;
pub mod cache_manager;
pub mod inode_cache;
pub mod page_laws;
pub mod slots;
