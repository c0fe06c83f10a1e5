pub mod listener;
pub mod recorder;
pub mod types;
pub mod wildcard;
