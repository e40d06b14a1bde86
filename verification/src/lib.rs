//! Token generation and verification service for Sui Move coin contracts.

pub mod text;
pub mod foreign;
pub mod utils;
pub mod errors;
pub mod client;
pub mod server_helper;
pub mod config;
pub mod server_types;
