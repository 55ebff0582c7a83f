//! Rules of the self-hosted runner webhook service.
pub mod config;
pub mod error;
pub mod maps;
pub mod signature;
pub mod utils;
pub mod webhook;
