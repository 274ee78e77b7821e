//! State kept by a FUSE daemon: the cached directory tree, open handles and
//! the write-back page cache, with the state file that carries them over a
//! restart.
pub mod dcache;
pub mod error;
pub mod names;
pub mod pcache;
pub mod persist;
pub mod record;
pub mod state;
pub mod status;
pub mod tables;
