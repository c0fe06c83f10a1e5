//! How the panel answers its controls, its keys and its deactivation, and the records
//! ticked in delete mode.
use std::collections::HashSet;
use vstd::prelude::*;
use crate::utils::config::InteractionMode;

verus! {

pub const ID_LIST_BOX: u32 = 1002;
pub const ID_BTN_DELETE: u32 = 1003;
pub const ID_BTN_CONFIRM: u32 = 1004;
pub const ID_BTN_SETTINGS: u32 = 1005;
pub const ID_SEARCH_EDIT: u32 = 1006;
pub const ID_BTN_FAV_FILTER: u32 = 1007;

/// Notification codes of `WM_COMMAND`.
pub const BN_CLICKED: u32 = 0;
pub const EN_CHANGE: u32 = 0x0300;
pub const LBN_SELCHANGE: u32 = 1;
pub const LBN_DBLCLK: u32 = 2;

pub const VK_ESCAPE: u16 = 0x1B;
pub const VK_DOWN: u16 = 0x28;
pub const VK_RETURN: u16 = 0x0D;

/// The low word of `WM_ACTIVATE`'s first parameter when a window is deactivated.
pub const WA_INACTIVE: u32 = 0;

/// What a notification from one of the panel's controls asks for.
#[derive(Debug, Clone, Copy, PartialEq, Eq, Structural)]
pub enum PanelCommand {
    /// The delete button: enter or leave delete mode.
    ToggleDeleteMode,
    /// The confirm button: delete the ticked records after asking.
    ConfirmDelete,
    /// The settings button: open the settings window.
    OpenSettings,
    /// The favourites button: switch the favourites filter.
    ToggleFavoriteFilter,
    /// The search box changed: take its text as the keyword.
    SearchChanged,
    /// A click on the list in delete mode: tick or untick the selected record.
    ToggleChecked,
    /// A new selection that is not to be pasted: write the selected record back and keep
    /// the panel open.
    WriteBackSelected,
    /// Write the selected record back, hide the panel and paste into the previous window.
    PasteSelected,
    /// Anything else: the default handling.
    Unhandled,
}

pub open spec fn panel_command_spec(
    id: u32,
    code: u32,
    delete_mode: bool,
    mode: InteractionMode,
    by_click: bool,
) -> PanelCommand {
    if id == ID_BTN_DELETE && code == BN_CLICKED {
        PanelCommand::ToggleDeleteMode
    } else if id == ID_BTN_CONFIRM && code == BN_CLICKED {
        PanelCommand::ConfirmDelete
    } else if id == ID_BTN_SETTINGS && code == BN_CLICKED {
        PanelCommand::OpenSettings
    } else if id == ID_BTN_FAV_FILTER && code == BN_CLICKED {
        PanelCommand::ToggleFavoriteFilter
    } else if id == ID_SEARCH_EDIT && code == EN_CHANGE {
        PanelCommand::SearchChanged
    } else if id == ID_LIST_BOX && code == LBN_SELCHANGE {
        if delete_mode {
            PanelCommand::ToggleChecked
        } else if by_click && mode == InteractionMode::AutoPaste {
            PanelCommand::PasteSelected
        } else {
            PanelCommand::WriteBackSelected
        }
    } else if id == ID_LIST_BOX && code == LBN_DBLCLK {
        if delete_mode {
            PanelCommand::ToggleChecked
        } else {
            PanelCommand::PasteSelected
        }
    } else {
        PanelCommand::Unhandled
    }
}

/// The command for a notification `code` from the control `id`. A list selection made by a
/// click pastes at once in automatic-paste mode; in confirm-then-paste mode, and for a
/// selection moved with the keyboard, it is only written back. A double click pastes in
/// both modes. In delete mode, clicks on the list tick and untick records.
pub fn panel_command(id: u32, code: u32, delete_mode: bool, mode: InteractionMode, by_click: bool) -> (r:
    PanelCommand)
    ensures
        r == panel_command_spec(id, code, delete_mode, mode, by_click),
{
    if id == ID_BTN_DELETE && code == BN_CLICKED {
        PanelCommand::ToggleDeleteMode
    } else if id == ID_BTN_CONFIRM && code == BN_CLICKED {
        PanelCommand::ConfirmDelete
    } else if id == ID_BTN_SETTINGS && code == BN_CLICKED {
        PanelCommand::OpenSettings
    } else if id == ID_BTN_FAV_FILTER && code == BN_CLICKED {
        PanelCommand::ToggleFavoriteFilter
    } else if id == ID_SEARCH_EDIT && code == EN_CHANGE {
        PanelCommand::SearchChanged
    } else if id == ID_LIST_BOX && code == LBN_SELCHANGE {
        if delete_mode {
            PanelCommand::ToggleChecked
        } else if by_click && mode == InteractionMode::AutoPaste {
            PanelCommand::PasteSelected
        } else {
            PanelCommand::WriteBackSelected
        }
    } else if id == ID_LIST_BOX && code == LBN_DBLCLK {
        if delete_mode {
            PanelCommand::ToggleChecked
        } else {
            PanelCommand::PasteSelected
        }
    } else {
        PanelCommand::Unhandled
    }
}

/// A change of the list selection pastes exactly when it was made by a click, outside
/// delete mode, in automatic-paste mode: never for a keyboard move and never in
/// confirm-then-paste mode; otherwise it writes back, or in delete mode ticks. A double
/// click pastes outside delete mode and ticks in it.
pub proof fn lemma_list_selection_commands(delete_mode: bool, mode: InteractionMode, by_click: bool)
    ensures
        (panel_command_spec(ID_LIST_BOX, LBN_SELCHANGE, delete_mode, mode, by_click)
            == PanelCommand::PasteSelected) == (!delete_mode && by_click && mode
            == InteractionMode::AutoPaste),
        panel_command_spec(ID_LIST_BOX, LBN_SELCHANGE, delete_mode, mode, false)
            != PanelCommand::PasteSelected,
        panel_command_spec(ID_LIST_BOX, LBN_SELCHANGE, delete_mode, InteractionMode::ConfirmThenPaste, by_click)
            != PanelCommand::PasteSelected,
        !delete_mode && !(by_click && mode == InteractionMode::AutoPaste) ==> panel_command_spec(
            ID_LIST_BOX,
            LBN_SELCHANGE,
            delete_mode,
            mode,
            by_click,
        ) == PanelCommand::WriteBackSelected,
        delete_mode ==> panel_command_spec(ID_LIST_BOX, LBN_SELCHANGE, delete_mode, mode, by_click)
            == PanelCommand::ToggleChecked,
        panel_command_spec(ID_LIST_BOX, LBN_DBLCLK, delete_mode, mode, by_click) == (if delete_mode {
            PanelCommand::ToggleChecked
        } else {
            PanelCommand::PasteSelected
        }),
{
}

/// The window that received a key press.
#[derive(Debug, Clone, Copy, PartialEq, Eq, Structural)]
pub enum KeyTarget {
    Panel,
    List,
    Search,
    Preview,
}

/// What a key press does.
#[derive(Debug, Clone, Copy, PartialEq, Eq, Structural)]
pub enum KeyAction {
    HidePanel,
    /// Empty the search box and the keyword, reload the list, hide the panel.
    ClearSearchAndHide,
    FocusList,
    /// What a double click on the selected entry does.
    ActivateSelection,
    ClosePreview,
    /// The window's usual handling.
    PassOn,
}

pub open spec fn key_action_spec(target: KeyTarget, vk: u16) -> KeyAction {
    match target {
        KeyTarget::Panel => if vk == VK_ESCAPE {
            KeyAction::HidePanel
        } else {
            KeyAction::PassOn
        },
        KeyTarget::List => if vk == VK_ESCAPE {
            KeyAction::HidePanel
        } else if vk == VK_RETURN {
            KeyAction::ActivateSelection
        } else {
            KeyAction::PassOn
        },
        KeyTarget::Search => if vk == VK_ESCAPE {
            KeyAction::ClearSearchAndHide
        } else if vk == VK_DOWN {
            KeyAction::FocusList
        } else {
            KeyAction::PassOn
        },
        KeyTarget::Preview => if vk == VK_ESCAPE {
            KeyAction::ClosePreview
        } else {
            KeyAction::PassOn
        },
    }
}

/// Escape hides the panel from the panel and the list, clears the search and hides the
/// panel from the search box, and closes the preview; the down arrow moves from the search
/// box to the list; Enter on the list does what a double click on the selected entry does.
pub fn key_action(target: KeyTarget, vk: u16) -> (r: KeyAction)
    ensures
        r == key_action_spec(target, vk),
{
    match target {
        KeyTarget::Panel => if vk == VK_ESCAPE {
            KeyAction::HidePanel
        } else {
            KeyAction::PassOn
        },
        KeyTarget::List => if vk == VK_ESCAPE {
            KeyAction::HidePanel
        } else if vk == VK_RETURN {
            KeyAction::ActivateSelection
        } else {
            KeyAction::PassOn
        },
        KeyTarget::Search => if vk == VK_ESCAPE {
            KeyAction::ClearSearchAndHide
        } else if vk == VK_DOWN {
            KeyAction::FocusList
        } else {
            KeyAction::PassOn
        },
        KeyTarget::Preview => if vk == VK_ESCAPE {
            KeyAction::ClosePreview
        } else {
            KeyAction::PassOn
        },
    }
}

/// Whether the panel hides when it is deactivated (`activation` is the low word of the
/// message's first parameter): not while the preview opens, not during a dialog of its own,
/// and not when the preview window takes the focus.
pub fn hides_on_deactivate(activation: u32, preview_opening: bool, in_dialog: bool, to_preview: bool) -> (r: bool)
    ensures
        r == (activation == WA_INACTIVE && !preview_opening && !in_dialog && !to_preview),
{
    activation == WA_INACTIVE && !preview_opening && !in_dialog && !to_preview
}

/// `s` with `id` ticked if it was not, unticked if it was.
pub open spec fn toggled(s: Set<i64>, id: i64) -> Set<i64> {
    if s.contains(id) {
        s.remove(id)
    } else {
        s.insert(id)
    }
}

/// Delete mode of the panel and the ids of the records ticked in it.
pub struct DeleteSelection {
    active: bool,
    checked: HashSet<i64>,
}

impl View for DeleteSelection {
    /// Whether delete mode is on, and the ticked ids.
    type V = (bool, Set<i64>);

    closed spec fn view(&self) -> (bool, Set<i64>) {
        (self.active, self.checked@)
    }
}

impl DeleteSelection {
    /// Delete mode off, nothing ticked.
    pub fn new() -> (r: Self)
        ensures
            r@ == (false, Set::<i64>::empty()),
    {
        DeleteSelection { active: false, checked: HashSet::new() }
    }

    pub fn active(&self) -> (r: bool)
        ensures
            r == self@.0,
    {
        self.active
    }

    /// Whether the record `id` is ticked.
    pub fn is_checked(&self, id: i64) -> (r: bool)
        ensures
            r == self@.1.contains(id),
    {
        self.checked.contains(&id)
    }

    /// How many records are ticked.
    pub fn count(&self) -> (r: usize)
        ensures
            r == self@.1.len(),
    {
        self.checked.len()
    }

    /// Leaves delete mode and unticks everything (the panel opens this way).
    pub fn reset(&mut self)
        ensures
            final(self)@ == (false, Set::<i64>::empty()),
    {
        self.active = false;
        self.checked.clear();
    }

    /// Enters or leaves delete mode; leaving it unticks everything.
    pub fn toggle_mode(&mut self)
        ensures
            final(self)@.0 == !old(self)@.0,
            final(self)@.1 == (if final(self)@.0 { old(self)@.1 } else { Set::<i64>::empty() }),
    {
        self.active = !self.active;
        if !self.active {
            self.checked.clear();
        }
    }

    /// In delete mode, ticks the record `id` or unticks it; outside it, nothing changes.
    pub fn toggle_checked(&mut self, id: i64)
        ensures
            final(self)@ == (if old(self)@.0 { (true, toggled(old(self)@.1, id)) } else { old(self)@ }),
    {
        if !self.active {
            return;
        }
        if self.checked.contains(&id) {
            self.checked.remove(&id);
        } else {
            self.checked.insert(id);
        }
    }

    /// Hands out the ticked ids and leaves delete mode with nothing ticked.
    pub fn take_checked(&mut self) -> (r: HashSet<i64>)
        ensures
            r@ == old(self)@.1,
            final(self)@ == (false, Set::<i64>::empty()),
    {
        let mut out: HashSet<i64> = HashSet::new();
        std::mem::swap(&mut out, &mut self.checked);
        self.active = false;
        out
    }
}

/// Ticking a record twice leaves the ticked set as it was.
pub proof fn lemma_toggle_twice(s: Set<i64>, id: i64)
    ensures
        toggled(toggled(s, id), id) == s,
{
    if s.contains(id) {
        assert(s.remove(id).insert(id) =~= s);
    } else {
        assert(s.insert(id).remove(id) =~= s);
    }
}

} // verus!
