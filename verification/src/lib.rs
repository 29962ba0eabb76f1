pub mod config;
pub mod defaults;
pub mod key;
pub mod models;
pub mod repo;
pub mod server;
pub mod service;
pub mod status;
pub mod store;
pub mod transaction;
pub mod version;
