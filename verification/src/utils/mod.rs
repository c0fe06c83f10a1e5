pub mod config;
pub mod text;
