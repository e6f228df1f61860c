//! A terminal file explorer's control core: entries and their order, browsing
//! sessions, the global mark set, and the message-driven update function.
pub mod order;
pub mod path;
pub mod entry;
pub mod common;
pub mod session;
pub mod memory;
pub mod model;
pub mod msg;
pub mod cmd;
pub mod update;
pub mod laws;
