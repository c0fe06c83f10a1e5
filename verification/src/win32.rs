//! Win32 values that the library computes with: handles, geometry, messages, and the
//! helpers that pack and unpack message parameters and colours.
#![allow(non_snake_case, non_camel_case_types)]
use vstd::prelude::*;

verus! {

#[derive(Clone, Copy, Debug, Default, PartialEq)]
pub struct HWND(pub isize);

#[derive(Clone, Copy, Debug, Default, PartialEq)]
pub struct HINSTANCE(pub isize);

#[derive(Clone, Copy, Debug, Default, PartialEq)]
pub struct HMENU(pub isize);

#[derive(Clone, Copy, Debug, Default, PartialEq)]
pub struct HICON(pub isize);

#[derive(Clone, Copy, Debug, Default, PartialEq)]
pub struct HCURSOR(pub isize);

#[derive(Clone, Copy, Debug, Default, PartialEq)]
pub struct HFONT(pub isize);

#[derive(Clone, Copy, Debug, Default, PartialEq)]
pub struct HBRUSH(pub isize);

#[derive(Clone, Copy, Debug, Default, PartialEq)]
pub struct HGLOBAL(pub isize);

#[derive(Clone, Copy, Debug, Default, PartialEq)]
pub struct HANDLE(pub isize);

#[derive(Clone, Copy, Debug, Default, PartialEq)]
pub struct HIMAGELIST(pub isize);

#[derive(Clone, Copy, Debug, Default, PartialEq)]
pub struct HMONITOR(pub isize);

pub type HDC = isize;

pub type COLORREF = u32;

pub type BOOL = i32;

pub type LRESULT = isize;

pub type LPARAM = isize;

pub type WPARAM = usize;

pub const TRUE: BOOL = 1;

pub const FALSE: BOOL = 0;

#[derive(Clone, Copy, Debug, Default)]
pub struct POINT {
    pub x: i32,
    pub y: i32,
}

#[derive(Clone, Copy, Debug, Default)]
pub struct RECT {
    pub left: i32,
    pub top: i32,
    pub right: i32,
    pub bottom: i32,
}

#[derive(Clone, Copy, Debug)]
pub struct MSG {
    pub hwnd: HWND,
    pub message: u32,
    pub wParam: WPARAM,
    pub lParam: LPARAM,
    pub time: u32,
    pub pt: POINT,
}

impl Default for MSG {
    fn default() -> (r: Self)
        ensures
            r.hwnd.0 == 0,
            r.message == 0,
            r.wParam == 0,
            r.lParam == 0,
            r.time == 0,
            r.pt.x == 0,
            r.pt.y == 0,
    {
        Self {
            hwnd: HWND(0),
            message: 0,
            wParam: 0,
            lParam: 0,
            time: 0,
            pt: POINT { x: 0, y: 0 },
        }
    }
}

#[derive(Clone, Copy)]
pub struct DRAWITEMSTRUCT {
    pub CtlType: u32,
    pub CtlID: u32,
    pub itemID: u32,
    pub itemAction: u32,
    pub itemState: u32,
    pub hwndItem: HWND,
    pub hDC: HDC,
    pub rcItem: RECT,
    pub itemData: isize,
}

#[derive(Clone, Copy)]
pub struct MEASUREITEMSTRUCT {
    pub CtlType: u32,
    pub CtlID: u32,
    pub itemID: u32,
    pub itemWidth: u32,
    pub itemHeight: u32,
    pub itemData: isize,
}

pub struct MONITORINFO {
    pub cbSize: u32,
    pub rcMonitor: RECT,
    pub rcWork: RECT,
    pub dwFlags: u32,
}

pub struct NOTIFYICONDATAW {
    pub cbSize: u32,
    pub hWnd: HWND,
    pub uID: u32,
    pub uFlags: u32,
    pub uCallbackMessage: u32,
    pub hIcon: HICON,
    pub szTip: [u16; 128],
    pub dwState: u32,
    pub dwStateMask: u32,
    pub szInfo: [u16; 256],
    pub uVersion: u32,
    pub szInfoTitle: [u16; 64],
    pub dwInfoFlags: u32,
    pub guidItem: [u8; 16],
    pub hBalloonIcon: HICON,
}

pub struct KEYBDINPUT {
    pub wVk: u16,
    pub wScan: u16,
    pub dwFlags: u32,
    pub time: u32,
    pub dwExtraInfo: usize,
}

pub struct INPUT_u {
    pub ki: KEYBDINPUT,
}

impl INPUT_u {
    pub fn from_keybd(ki: KEYBDINPUT) -> (r: Self)
        ensures
            r.ki == ki,
    {
        INPUT_u { ki }
    }
}

pub struct INPUT {
    pub input_type: u32,
    pub u: INPUT_u,
}

pub const MOD_ALT: u32 = 0x0001;
pub const MOD_CONTROL: u32 = 0x0002;
pub const MOD_SHIFT: u32 = 0x0004;
pub const MOD_WIN: u32 = 0x0008;
pub const MOD_NOREPEAT: u32 = 0x4000;

pub fn wparam(v: u32) -> (r: WPARAM)
    ensures
        r == v,
{
    v as WPARAM
}

pub fn lparam(v: isize) -> (r: LPARAM)
    ensures
        r == v,
{
    v as LPARAM
}

/// The low 16 bits.
pub fn LOWORD(dw: u32) -> (r: u16)
    ensures
        r == dw % 0x10000,
{
    let r = (dw & 0xFFFF) as u16;
    assert(dw & 0xFFFF == dw % 0x10000) by (bit_vector);
    r
}

/// The high 16 bits.
pub fn HIWORD(dw: u32) -> (r: u16)
    ensures
        r == dw / 0x10000,
{
    let r = ((dw >> 16) & 0xFFFF) as u16;
    assert((dw >> 16) & 0xFFFF == dw / 0x10000) by (bit_vector);
    r
}

/// The 32-bit value with `lo` in its low word and `hi` in its high word, as an `LPARAM`.
pub fn MAKELPARAM(lo: u16, hi: u16) -> (r: LPARAM)
    ensures
        r == (lo + 0x10000 * hi) as isize,
{
    let v: u32 = (lo as u32) | ((hi as u32) << 16);
    assert(((lo as u32) | ((hi as u32) << 16)) == lo + 0x10000 * hi) by (bit_vector);
    v as LPARAM
}

/// A colour with red in the low byte, then green, then blue.
pub fn RGB(r: u8, g: u8, b: u8) -> (c: COLORREF)
    ensures
        c == r + 0x100 * g + 0x10000 * b,
{
    let c: u32 = (r as u32) | ((g as u32) << 8) | ((b as u32) << 16);
    assert(((r as u32) | ((g as u32) << 8) | ((b as u32) << 16)) == r + 0x100 * g + 0x10000 * b)
        by (bit_vector);
    c
}

/// A 32-bit value is its low word plus its high word times 0x10000.
pub proof fn lemma_words_recompose(dw: u32)
    ensures
        dw == dw % 0x10000 + 0x10000 * (dw / 0x10000),
        dw % 0x10000 <= 0xFFFF,
        dw / 0x10000 <= 0xFFFF,
{
}

/// Reading back the words of a packed `LPARAM` gives the two words that were packed.
pub proof fn lemma_makelparam_words(lo: u16, hi: u16)
    ensures
        (((lo + 0x10000 * hi) as isize) as u32) % 0x10000 == lo,
        (((lo + 0x10000 * hi) as isize) as u32) / 0x10000 == hi,
{
    let v: u32 = (lo + 0x10000 * hi) as u32;
    assert(v == lo + 0x10000 * hi);
    assert(((v as isize) as u32) == v) by (bit_vector);
    assert((lo + 0x10000 * hi) as isize == v as isize);
}

/// The red, green and blue bytes can be read back from a colour.
pub proof fn lemma_rgb_components(r: u8, g: u8, b: u8)
    ensures
        (r + 0x100 * g + 0x10000 * b) % 0x100 == r,
        ((r + 0x100 * g + 0x10000 * b) / 0x100) % 0x100 == g,
        (r + 0x100 * g + 0x10000 * b) / 0x10000 == b,
{
}

} // verus!
