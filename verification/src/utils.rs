//! Token generation, verification and Sui helpers.

pub mod variables;
pub mod helpers;
pub mod generation;
pub mod verify_helper;
pub mod template;
pub mod sui_helper;
pub mod server_types;
