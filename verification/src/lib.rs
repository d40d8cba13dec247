pub mod archive;
pub mod codec;
pub mod config;
pub mod error;
pub mod file;
pub mod jsonval;
pub mod launcher;
pub mod manifest;
pub mod network;
pub mod runner;
pub mod secret;
pub mod strutil;

pub use error::Error;
