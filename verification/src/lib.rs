pub mod auth;
pub mod codec;
pub mod config;
pub mod errors;
pub mod handlers;
pub mod init;
pub mod models;
pub mod store;
pub mod token;
