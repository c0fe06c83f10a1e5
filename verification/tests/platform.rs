use clipboardx::hotkey::manager::HotkeyManager;
use clipboardx::tray::{tip_buffer, tray_click, tray_command, TrayClick, TrayCommand};
use clipboardx::utils::config::{Config, InteractionMode};
use clipboardx::utils::text::{chars_of, str_eq, w};
use clipboardx::win32::{
    lparam, wparam, INPUT_u, KEYBDINPUT, HIWORD, LOWORD, MAKELPARAM, MOD_ALT, MOD_CONTROL, MOD_SHIFT,
    MOD_WIN, MSG, RGB,
};

#[test]
fn word_helpers() {
    assert_eq!(LOWORD(0x1234_5678), 0x5678);
    assert_eq!(HIWORD(0x1234_5678), 0x1234);
    assert_eq!(MAKELPARAM(0x5678, 0x1234), 0x1234_5678);
    assert_eq!(LOWORD(MAKELPARAM(0xFFFF, 0xFFFF) as u32), 0xFFFF);
    assert_eq!(HIWORD(MAKELPARAM(0x0001, 0xFFFF) as u32), 0xFFFF);
    assert_eq!(wparam(7), 7usize);
    assert_eq!(lparam(-3), -3isize);
    assert_eq!(RGB(0x11, 0x22, 0x33), 0x0033_2211);
}

#[test]
fn message_and_input_values() {
    let m = MSG::default();
    assert_eq!((m.hwnd.0, m.message, m.wParam, m.lParam, m.time, m.pt.x, m.pt.y), (0, 0, 0, 0, 0, 0, 0));
    let u = INPUT_u::from_keybd(KEYBDINPUT { wVk: 0x56, wScan: 0, dwFlags: 2, time: 0, dwExtraInfo: 0 });
    assert_eq!((u.ki.wVk, u.ki.dwFlags), (0x56, 2));
}

#[test]
fn default_config_is_alt_v() {
    let c = Config::default();
    assert_eq!(c.hotkey_modifiers, MOD_ALT);
    assert_eq!(c.hotkey_vk, 0x56);
    assert_eq!(c.interaction_mode, InteractionMode::AutoPaste);
    assert_eq!(c.max_records, 5000);
    assert!(c.image_storage_enabled);
    assert!(c.ignore_list.is_empty());
    assert_eq!(HotkeyManager::hotkey_name(c.hotkey_modifiers, c.hotkey_vk), "Alt+V");
    assert_eq!(InteractionMode::default(), InteractionMode::AutoPaste);
}

#[test]
fn hotkey_names() {
    assert_eq!(HotkeyManager::hotkey_name(MOD_CONTROL | MOD_SHIFT, 0x31), "Ctrl+Shift+1");
    assert_eq!(HotkeyManager::hotkey_name(MOD_WIN | MOD_ALT, 0x70), "Alt+Win+F1");
    assert_eq!(HotkeyManager::hotkey_name(0, 0x7B), "F12");
    assert_eq!(HotkeyManager::hotkey_name(0, 0x20), "20");
    assert_eq!(HotkeyManager::hotkey_name(0, 0x0D), "0D");
    assert_eq!(HotkeyManager::hotkey_name(0, 0x100), "100");
    assert_eq!(HotkeyManager::hotkey_name(MOD_ALT | MOD_CONTROL | MOD_SHIFT | MOD_WIN, 0xBA), "Alt+Ctrl+Shift+Win+BA");
    assert_eq!(HotkeyManager::hotkey_name(0, 0x41), "A");
    assert_eq!(HotkeyManager::hotkey_name(0, 0x5A), "Z");
    assert_eq!(HotkeyManager::hotkey_name(0, 0x7C), "7C");
}

#[test]
fn hotkey_registration_state() {
    let mut m = HotkeyManager::new();
    assert!(!m.registered());
    assert_eq!(m.finish_unregister(None), Ok(()));
    assert_eq!(m.finish_register(false), Err("热键注册失败".to_string()));
    assert!(!m.registered());
    assert_eq!(m.finish_register(true), Ok(()));
    assert!(m.registered());
    assert_eq!(m.finish_unregister(Some(false)), Err("注销热键失败".to_string()));
    assert!(m.registered());
    assert_eq!(m.finish_unregister(Some(true)), Ok(()));
    assert!(!m.registered());
}

#[test]
fn tray_clicks_and_commands() {
    assert_eq!(tray_click(0x0202), TrayClick::TogglePanel);
    assert_eq!(tray_click(0x0203), TrayClick::TogglePanel);
    assert_eq!(tray_click(0x0205), TrayClick::ShowMenu);
    assert_eq!(tray_click(0x0200), TrayClick::Ignore);
    assert_eq!(tray_command(1001), TrayCommand::ShowPanel);
    assert_eq!(tray_command(1002), TrayCommand::Settings);
    assert_eq!(tray_command(1003), TrayCommand::About);
    assert_eq!(tray_command(1004), TrayCommand::Exit);
    assert_eq!(tray_command(1005), TrayCommand::ClearHistory);
    assert_eq!(tray_command(0), TrayCommand::Nothing);
    assert_eq!(tray_command(-1), TrayCommand::Nothing);
}

#[test]
fn tray_tip_is_cut_and_terminated() {
    let short = w("ClipBoardX");
    let b = tip_buffer(&short);
    assert_eq!(b.len(), 128);
    assert_eq!(&b[..11], &short[..]);
    assert!(b[11..].iter().all(|&u| u == 0));
    let long: Vec<u16> = (1..=200).collect();
    let b = tip_buffer(&long);
    assert_eq!(&b[..127], &long[..127]);
    assert_eq!(b[127], 0);
}

#[test]
fn utf16_with_terminator() {
    assert_eq!(w(""), vec![0]);
    assert_eq!(w("A€😀"), vec![0x41, 0x20AC, 0xD83D, 0xDE00, 0]);
    let s = "剪切板 manager";
    let mut expected: Vec<u16> = s.encode_utf16().collect();
    expected.push(0);
    assert_eq!(w(s), expected);
}

#[test]
fn string_helpers() {
    assert!(str_eq("abc", "abc"));
    assert!(!str_eq("abc", "abd"));
    assert!(!str_eq("abc", "ab"));
    assert_eq!(chars_of("a中"), vec!['a', '中']);
}
