//! Correlates open network sockets with the processes that own them.
//!
//! The crate turns the text listing of a socket-listing utility into a map
//! from network connection to process name, and resolves a network interface
//! by its exact name.

pub mod interface;
pub mod lsof_utils;
pub mod network;
pub mod resize;
pub mod correlator;
pub mod text;
