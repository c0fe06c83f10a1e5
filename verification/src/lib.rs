pub mod app;
pub mod clipboard;
pub mod hotkey;
pub mod storage;
pub mod tray;
pub mod ui;
pub mod utils;
pub mod win32;
