//! Open handles and the state that requests are answered from.
pub mod backend_handle;
pub mod cache_handle;
pub mod dir_handle;
pub mod file_handle;
pub mod handle_laws;
pub mod handle_table;
pub mod node_laws;
pub mod node_state;
pub mod node_view;
pub mod opening;
pub mod request_laws;
pub mod restore_laws;
