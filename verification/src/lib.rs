pub mod auth;
pub mod config;
pub mod proxy;
pub mod selector;
pub mod target;
pub mod text;
