pub mod panel;
pub mod settings_window;
pub mod theme;
pub mod panel_input;
