//! The tray icon: what its clicks and its menu commands do, and its tooltip buffer.
use vstd::prelude::*;

verus! {

/// The message the tray icon sends to the monitor window (`WM_APP + 1`).
pub const TRAY_CALLBACK_MSG: u32 = 0x8001;

pub const TRAY_ICON_ID: u32 = 1;

pub const MENU_SHOW: usize = 1001;
pub const MENU_SETTINGS: usize = 1002;
pub const MENU_ABOUT: usize = 1003;
pub const MENU_EXIT: usize = 1004;
pub const MENU_CLEAR: usize = 1005;

pub const WM_LBUTTONUP: u32 = 0x0202;
pub const WM_LBUTTONDBLCLK: u32 = 0x0203;
pub const WM_RBUTTONUP: u32 = 0x0205;

/// What a mouse event on the tray icon does.
#[derive(Debug, Clone, Copy, PartialEq, Eq, Structural)]
pub enum TrayClick {
    /// Left click or double click: show or hide the panel.
    TogglePanel,
    /// Right click: open the tray menu.
    ShowMenu,
    /// Anything else.
    Ignore,
}

/// The action for a tray notification whose mouse message is carried in `l`.
pub fn tray_click(l: isize) -> (r: TrayClick)
    ensures
        r == (if l as u32 == WM_LBUTTONUP || l as u32 == WM_LBUTTONDBLCLK {
            TrayClick::TogglePanel
        } else if l as u32 == WM_RBUTTONUP {
            TrayClick::ShowMenu
        } else {
            TrayClick::Ignore
        }),
{
    let m = l as u32;
    if m == WM_LBUTTONUP || m == WM_LBUTTONDBLCLK {
        TrayClick::TogglePanel
    } else if m == WM_RBUTTONUP {
        TrayClick::ShowMenu
    } else {
        TrayClick::Ignore
    }
}

/// A command chosen from the tray menu.
#[derive(Debug, Clone, Copy, PartialEq, Eq, Structural)]
pub enum TrayCommand {
    ShowPanel,
    Settings,
    About,
    ClearHistory,
    Exit,
    /// The menu was dismissed or returned an unknown id.
    Nothing,
}

/// The command for the id the tray menu returned.
pub fn tray_command(cmd: i32) -> (r: TrayCommand)
    ensures
        r == (if cmd as usize == MENU_SHOW {
            TrayCommand::ShowPanel
        } else if cmd as usize == MENU_SETTINGS {
            TrayCommand::Settings
        } else if cmd as usize == MENU_ABOUT {
            TrayCommand::About
        } else if cmd as usize == MENU_CLEAR {
            TrayCommand::ClearHistory
        } else if cmd as usize == MENU_EXIT {
            TrayCommand::Exit
        } else {
            TrayCommand::Nothing
        }),
{
    let c = cmd as usize;
    if c == MENU_SHOW {
        TrayCommand::ShowPanel
    } else if c == MENU_SETTINGS {
        TrayCommand::Settings
    } else if c == MENU_ABOUT {
        TrayCommand::About
    } else if c == MENU_CLEAR {
        TrayCommand::ClearHistory
    } else if c == MENU_EXIT {
        TrayCommand::Exit
    } else {
        TrayCommand::Nothing
    }
}

/// Length of the tooltip buffer, terminator included.
pub const TIP_LEN: usize = 128;

/// The tooltip buffer: the first units of `tip`, at most 127, then zeros.
pub fn tip_buffer(tip: &Vec<u16>) -> (r: Vec<u16>)
    ensures
        r@.len() == TIP_LEN,
        forall|i: int| 0 <= i < TIP_LEN ==> #[trigger] r@[i] == (if i < tip@.len() && i < TIP_LEN - 1 {
            tip@[i]
        } else {
            0u16
        }),
{
    let mut r: Vec<u16> = Vec::new();
    let mut i: usize = 0;
    while i < TIP_LEN
        invariant
            i <= TIP_LEN,
            r@.len() == i,
            forall|k: int| 0 <= k < i ==> #[trigger] r@[k] == (if k < tip@.len() && k < TIP_LEN - 1 {
                tip@[k]
            } else {
                0u16
            }),
        decreases TIP_LEN - i,
    {
        if i < tip.len() && i < TIP_LEN - 1 {
            r.push(tip[i]);
        } else {
            r.push(0);
        }
        i += 1;
    }
    r
}

} // verus!
