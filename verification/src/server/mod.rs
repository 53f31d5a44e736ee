//! What the web front end is answered: the decisions behind the handlers,
//! without the transport.

pub mod api;
pub mod state;
pub mod static_files;
