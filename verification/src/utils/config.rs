//! The application's settings and their defaults.
use vstd::prelude::*;

verus! {

/// What clicking a history entry does.
#[derive(Debug, Clone, Copy, PartialEq, Eq, Structural)]
pub enum InteractionMode {
    /// The default: a click writes the entry to the clipboard and pastes it.
    AutoPaste,
    /// A click only writes the entry to the clipboard; a double click or Enter pastes.
    ConfirmThenPaste,
}

impl Default for InteractionMode {
    fn default() -> (r: Self)
        ensures
            r == InteractionMode::AutoPaste,
    {
        InteractionMode::AutoPaste
    }
}

/// A rule that keeps an application's clipboard content out of the history.
#[derive(Debug, Clone)]
pub struct IgnoreRule {
    /// `"process_name"`, `"full_path"` or `"window_title"`.
    pub rule_type: String,
    /// The pattern to match; `*` and `?` are wildcards.
    pub pattern: String,
}

/// Application settings.
#[derive(Debug, Clone)]
pub struct Config {
    /// Modifier keys of the global hotkey (`MOD_ALT`, `MOD_CONTROL`, `MOD_SHIFT`, `MOD_WIN`).
    pub hotkey_modifiers: u32,
    /// Virtual key of the global hotkey.
    pub hotkey_vk: u16,
    pub interaction_mode: InteractionMode,
    /// How many records to keep; -1 keeps all.
    pub max_records: i64,
    /// Whether image content is stored.
    pub image_storage_enabled: bool,
    /// Applications whose content is not recorded.
    pub ignore_list: Vec<IgnoreRule>,
}

impl Default for Config {
    /// Alt+V, automatic paste, 5000 records, images stored, nothing ignored.
    fn default() -> (r: Self)
        ensures
            r.hotkey_modifiers == 0x0001,
            r.hotkey_vk == 0x56,
            r.interaction_mode == InteractionMode::AutoPaste,
            r.max_records == 5000,
            r.image_storage_enabled,
            r.ignore_list@.len() == 0,
    {
        Self {
            hotkey_modifiers: 0x0001,
            hotkey_vk: 0x56,
            interaction_mode: InteractionMode::default(),
            max_records: 5000,
            image_storage_enabled: true,
            ignore_list: Vec::new(),
        }
    }
}

} // verus!
