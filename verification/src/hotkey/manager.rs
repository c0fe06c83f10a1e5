//! The global hotkey: its registration state and its display name.
use vstd::prelude::*;
use crate::utils::text::{decimal, push_char, push_decimal, zero_pad};
use crate::win32::{MOD_ALT, MOD_CONTROL, MOD_SHIFT, MOD_WIN};

verus! {

/// Tracks whether the panel hotkey is registered with the system.
pub struct HotkeyManager {
    registered: bool,
}

/// The id under which the panel hotkey is registered.
pub const HOTKEY_ID: i32 = 1001;

/// The id used to probe whether a key combination is taken.
pub const PROBE_HOTKEY_ID: i32 = 9999;

/// An upper-case hexadecimal digit.
pub open spec fn hex_digit_char(d: nat) -> char {
    if d < 10 {
        crate::utils::text::digit_char(d)
    } else if d == 10 { 'A' } else if d == 11 { 'B' } else if d == 12 { 'C' } else if d == 13 { 'D' }
    else if d == 14 { 'E' } else { 'F' }
}

/// Upper-case hexadecimal notation, without leading zeros.
pub open spec fn hex_upper(n: nat) -> Seq<char>
    decreases n,
{
    if n < 16 {
        seq![hex_digit_char(n)]
    } else {
        hex_upper(n / 16).push(hex_digit_char(n % 16))
    }
}

/// The name of a virtual key: the digit or letter for `0`-`9` and `A`-`Z`, `F1`-`F12` for
/// the function keys, and otherwise its code in upper-case hexadecimal, at least two digits.
pub open spec fn key_name(vk: u16) -> Seq<char> {
    if 48 <= vk <= 57 || 65 <= vk <= 90 {
        seq![(vk as u8) as char]
    } else if 0x70 <= vk <= 0x7B {
        seq!['F'] + decimal((vk - 0x70 + 1) as nat)
    } else {
        zero_pad(hex_upper(vk as nat), 2)
    }
}

/// The modifier names in the order Alt, Ctrl, Shift, Win, each followed by `+`.
pub open spec fn modifier_prefix(modifiers: u32) -> Seq<char> {
    (if modifiers & MOD_ALT != 0 { "Alt+"@ } else { Seq::empty() })
        + (if modifiers & MOD_CONTROL != 0 { "Ctrl+"@ } else { Seq::empty() })
        + (if modifiers & MOD_SHIFT != 0 { "Shift+"@ } else { Seq::empty() })
        + (if modifiers & MOD_WIN != 0 { "Win+"@ } else { Seq::empty() })
}

/// The display name of a hotkey, such as `Alt+V`.
pub open spec fn hotkey_name_spec(modifiers: u32, vk: u16) -> Seq<char> {
    modifier_prefix(modifiers) + key_name(vk)
}

proof fn lemma_hex_upper_len(n: nat)
    ensures
        n < 16 ==> hex_upper(n).len() == 1,
        n >= 16 ==> hex_upper(n).len() >= 2,
    decreases n,
{
    if n >= 16 {
        lemma_hex_upper_len(n / 16);
    }
}

fn hex_digit(d: u64) -> (c: char)
    requires
        d < 16,
    ensures
        c == hex_digit_char(d as nat),
{
    if d < 10 {
        crate::utils::text::digit_of(d)
    } else if d == 10 { 'A' } else if d == 11 { 'B' } else if d == 12 { 'C' } else if d == 13 { 'D' }
    else if d == 14 { 'E' } else { 'F' }
}

fn push_hex(s: &mut String, n: u64)
    ensures
        final(s)@ == old(s)@ + hex_upper(n as nat),
    decreases n,
{
    if n < 16 {
        push_char(s, hex_digit(n));
        proof {
            assert(old(s)@.push(hex_digit_char(n as nat)) =~= old(s)@ + hex_upper(n as nat));
        }
    } else {
        push_hex(s, n / 16);
        push_char(s, hex_digit(n % 16));
        proof {
            assert((old(s)@ + hex_upper((n / 16) as nat)).push(hex_digit_char((n % 16) as nat))
                =~= old(s)@ + hex_upper(n as nat));
        }
    }
}

impl HotkeyManager {
    /// Whether the hotkey is registered.
    pub closed spec fn is_registered(&self) -> bool {
        self.registered
    }

    /// A manager with no hotkey registered.
    pub fn new() -> (r: Self)
        ensures
            !r.is_registered(),
    {
        Self { registered: false }
    }

    /// Whether the hotkey is registered.
    pub fn registered(&self) -> (r: bool)
        ensures
            r == self.is_registered(),
    {
        self.registered
    }

    /// Records the outcome of asking the system to register the hotkey.
    pub fn finish_register(&mut self, succeeded: bool) -> (r: Result<(), String>)
        ensures
            final(self).is_registered() == succeeded,
            r is Ok <==> succeeded,
            r matches Err(msg) ==> msg@ == "热键注册失败"@,
    {
        if succeeded {
            self.registered = true;
            Ok(())
        } else {
            self.registered = false;
            Err(String::from_str("热键注册失败"))
        }
    }

    /// Records the outcome of asking the system to unregister the hotkey; `None` when
    /// nothing was registered and the system was not asked.
    pub fn finish_unregister(&mut self, outcome: Option<bool>) -> (r: Result<(), String>)
        requires
            outcome is Some <==> old(self).is_registered(),
        ensures
            final(self).is_registered() == (old(self).is_registered() && outcome != Some(true)),
            r is Ok <==> outcome != Some(false),
            r matches Err(msg) ==> msg@ == "注销热键失败"@,
    {
        match outcome {
            None => Ok(()),
            Some(true) => {
                self.registered = false;
                Ok(())
            },
            Some(false) => Err(String::from_str("注销热键失败")),
        }
    }

    /// The display name of a hotkey, such as `Alt+V`.
    pub fn hotkey_name(modifiers: u32, vk: u16) -> (r: String)
        ensures
            r@ == hotkey_name_spec(modifiers, vk),
    {
        let mut r = String::new();
        if modifiers & MOD_ALT != 0 {
            r.append("Alt+");
        }
        if modifiers & MOD_CONTROL != 0 {
            r.append("Ctrl+");
        }
        if modifiers & MOD_SHIFT != 0 {
            r.append("Shift+");
        }
        if modifiers & MOD_WIN != 0 {
            r.append("Win+");
        }
        let ghost prefix = r@;
        assert(prefix =~= modifier_prefix(modifiers));
        if (48 <= vk && vk <= 57) || (65 <= vk && vk <= 90) {
            push_char(&mut r, (vk as u8) as char);
        } else if 0x70 <= vk && vk <= 0x7B {
            push_char(&mut r, 'F');
            push_decimal(&mut r, (vk - 0x70 + 1) as u64);
        } else {
            proof {
                lemma_hex_upper_len(vk as nat);
            }
            if vk < 16 {
                push_char(&mut r, '0');
            }
            push_hex(&mut r, vk as u64);
            proof {
                assert(r@ =~= prefix + key_name(vk));
            }
        }
        proof {
            assert(r@ =~= prefix + key_name(vk));
        }
        r
    }
}

} // verus!
