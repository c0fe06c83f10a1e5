use clipboardx::utils::config::InteractionMode;
use clipboardx::utils::config::InteractionMode::{AutoPaste, ConfirmThenPaste};
use clipboardx::ui::panel_input::{
    hides_on_deactivate, key_action, panel_command, DeleteSelection, KeyAction, KeyTarget,
    PanelCommand, BN_CLICKED, VK_RETURN, EN_CHANGE, ID_BTN_CONFIRM, ID_BTN_DELETE, ID_BTN_FAV_FILTER,
    ID_BTN_SETTINGS, ID_LIST_BOX, ID_SEARCH_EDIT, LBN_DBLCLK, LBN_SELCHANGE, VK_DOWN, VK_ESCAPE,
};

#[test]
fn buttons_map_to_their_commands() {
    assert_eq!(panel_command(ID_BTN_DELETE, BN_CLICKED, false, InteractionMode::AutoPaste, false), PanelCommand::ToggleDeleteMode);
    assert_eq!(panel_command(ID_BTN_CONFIRM, BN_CLICKED, true, InteractionMode::AutoPaste, false), PanelCommand::ConfirmDelete);
    assert_eq!(panel_command(ID_BTN_SETTINGS, BN_CLICKED, false, InteractionMode::AutoPaste, false), PanelCommand::OpenSettings);
    assert_eq!(panel_command(ID_BTN_FAV_FILTER, BN_CLICKED, false, InteractionMode::AutoPaste, false), PanelCommand::ToggleFavoriteFilter);
    assert_eq!(panel_command(ID_SEARCH_EDIT, EN_CHANGE, false, InteractionMode::AutoPaste, false), PanelCommand::SearchChanged);
}

#[test]
fn list_notifications_depend_on_delete_mode() {
    // A click pastes at once in automatic-paste mode, and only writes back otherwise.
    assert_eq!(panel_command(ID_LIST_BOX, LBN_SELCHANGE, false, AutoPaste, true), PanelCommand::PasteSelected);
    assert_eq!(panel_command(ID_LIST_BOX, LBN_SELCHANGE, false, ConfirmThenPaste, true), PanelCommand::WriteBackSelected);
    // A selection moved with the keyboard is only written back.
    assert_eq!(panel_command(ID_LIST_BOX, LBN_SELCHANGE, false, AutoPaste, false), PanelCommand::WriteBackSelected);
    // A double click pastes in both modes.
    assert_eq!(panel_command(ID_LIST_BOX, LBN_DBLCLK, false, AutoPaste, true), PanelCommand::PasteSelected);
    assert_eq!(panel_command(ID_LIST_BOX, LBN_DBLCLK, false, ConfirmThenPaste, false), PanelCommand::PasteSelected);
    // In delete mode clicks tick.
    assert_eq!(panel_command(ID_LIST_BOX, LBN_SELCHANGE, true, AutoPaste, true), PanelCommand::ToggleChecked);
    assert_eq!(panel_command(ID_LIST_BOX, LBN_DBLCLK, true, ConfirmThenPaste, true), PanelCommand::ToggleChecked);
}

#[test]
fn other_notifications_are_unhandled() {
    assert_eq!(panel_command(ID_BTN_DELETE, EN_CHANGE, false, InteractionMode::AutoPaste, false), PanelCommand::Unhandled);
    assert_eq!(panel_command(ID_SEARCH_EDIT, BN_CLICKED, false, InteractionMode::AutoPaste, false), PanelCommand::Unhandled);
    assert_eq!(panel_command(ID_LIST_BOX, 5, false, InteractionMode::AutoPaste, false), PanelCommand::Unhandled);
    assert_eq!(panel_command(2000, BN_CLICKED, false, InteractionMode::AutoPaste, false), PanelCommand::Unhandled);
}

#[test]
fn escape_and_down_arrow() {
    assert_eq!(key_action(KeyTarget::Panel, VK_ESCAPE), KeyAction::HidePanel);
    assert_eq!(key_action(KeyTarget::List, VK_ESCAPE), KeyAction::HidePanel);
    assert_eq!(key_action(KeyTarget::Search, VK_ESCAPE), KeyAction::ClearSearchAndHide);
    assert_eq!(key_action(KeyTarget::Search, VK_DOWN), KeyAction::FocusList);
    assert_eq!(key_action(KeyTarget::Preview, VK_ESCAPE), KeyAction::ClosePreview);
    assert_eq!(key_action(KeyTarget::List, VK_DOWN), KeyAction::PassOn);
    assert_eq!(key_action(KeyTarget::List, VK_RETURN), KeyAction::ActivateSelection);
    assert_eq!(key_action(KeyTarget::Search, VK_RETURN), KeyAction::PassOn);
    assert_eq!(key_action(KeyTarget::Preview, VK_DOWN), KeyAction::PassOn);
    assert_eq!(key_action(KeyTarget::Search, 0x41), KeyAction::PassOn);
}

#[test]
fn deactivation_hides_unless_the_preview_or_a_dialog_holds_it() {
    assert!(hides_on_deactivate(0, false, false, false));
    assert!(!hides_on_deactivate(1, false, false, false));
    assert!(!hides_on_deactivate(0, true, false, false));
    assert!(!hides_on_deactivate(0, false, true, false));
    assert!(!hides_on_deactivate(0, false, false, true));
}

#[test]
fn ticking_needs_delete_mode() {
    let mut sel = DeleteSelection::new();
    sel.toggle_checked(7);
    assert!(!sel.active());
    assert_eq!(sel.count(), 0);
    sel.toggle_mode();
    assert!(sel.active());
    sel.toggle_checked(7);
    sel.toggle_checked(9);
    assert!(sel.is_checked(7));
    assert!(sel.is_checked(9));
    assert_eq!(sel.count(), 2);
}

#[test]
fn ticking_twice_unticks() {
    let mut sel = DeleteSelection::new();
    sel.toggle_mode();
    sel.toggle_checked(3);
    sel.toggle_checked(3);
    assert!(!sel.is_checked(3));
    assert_eq!(sel.count(), 0);
}

#[test]
fn leaving_delete_mode_unticks_everything() {
    let mut sel = DeleteSelection::new();
    sel.toggle_mode();
    sel.toggle_checked(1);
    sel.toggle_checked(2);
    sel.toggle_mode();
    assert!(!sel.active());
    assert_eq!(sel.count(), 0);
    sel.toggle_mode();
    assert!(!sel.is_checked(1));
}

#[test]
fn taking_the_ticked_ids_ends_delete_mode() {
    let mut sel = DeleteSelection::new();
    sel.toggle_mode();
    sel.toggle_checked(4);
    sel.toggle_checked(8);
    let mut ids: Vec<i64> = sel.take_checked().into_iter().collect();
    ids.sort();
    assert_eq!(ids, vec![4, 8]);
    assert!(!sel.active());
    assert_eq!(sel.count(), 0);
}

#[test]
fn reset_clears_mode_and_ticks() {
    let mut sel = DeleteSelection::new();
    sel.toggle_mode();
    sel.toggle_checked(4);
    sel.reset();
    assert!(!sel.active());
    assert!(!sel.is_checked(4));
}
