pub mod manager;
