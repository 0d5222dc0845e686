pub mod book;
pub mod config;
pub mod cookies;
pub mod json;
