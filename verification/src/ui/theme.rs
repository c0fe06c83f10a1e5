//! Colours and sizes of the panel.
use vstd::prelude::*;

verus! {

/// Theme colours (0xRRGGBB).
pub struct ThemeColors {
    pub background: u32,
    pub selected_bg: u32,
    pub hover_bg: u32,
    pub text: u32,
    pub text_secondary: u32,
    pub border: u32,
    pub favorite: u32,
    pub icon_text: u32,
    pub icon_image: u32,
    pub icon_file: u32,
}

impl Default for ThemeColors {
    fn default() -> (r: Self)
        ensures
            r.background == 0xF5F5F5,
            r.selected_bg == 0x0078D4,
            r.hover_bg == 0xE5E5E5,
            r.text == 0x000000,
            r.text_secondary == 0x666666,
            r.border == 0xD0D0D0,
            r.favorite == 0xFFC107,
            r.icon_text == 0x0078D4,
            r.icon_image == 0x107C10,
            r.icon_file == 0xFF8C00,
    {
        Self {
            background: 0xF5F5F5,
            selected_bg: 0x0078D4,
            hover_bg: 0xE5E5E5,
            text: 0x000000,
            text_secondary: 0x666666,
            border: 0xD0D0D0,
            favorite: 0xFFC107,
            icon_text: 0x0078D4,
            icon_image: 0x107C10,
            icon_file: 0xFF8C00,
        }
    }
}

/// Panel dimensions in pixels.
pub struct PanelSizes {
    pub width: i32,
    pub max_height: i32,
    pub search_height: i32,
    pub item_height: i32,
}

impl Default for PanelSizes {
    fn default() -> (r: Self)
        ensures
            r.width == 420,
            r.max_height == 600,
            r.search_height == 36,
            r.item_height == 48,
    {
        Self { width: 420, max_height: 600, search_height: 36, item_height: 48 }
    }
}

} // verus!
