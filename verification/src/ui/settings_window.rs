//! The settings window's form: what it shows for the current settings and the settings
//! it saves.
use vstd::prelude::*;
use crate::utils::config::{Config, InteractionMode};
use crate::utils::text::{chars_of, decimal, digit_char, push_char, push_decimal, str_eq};

verus! {

/// The check state of a checked box.
pub const BST_CHECKED: u32 = 0x0001;

/// A character with the Unicode property `White_Space` (what `char::is_whitespace` tests).
pub open spec fn is_white_space(c: char) -> bool {
    ||| '\u{9}' <= c <= '\u{d}'
    ||| c == ' '
    ||| c == '\u{85}'
    ||| c == '\u{a0}'
    ||| c == '\u{1680}'
    ||| '\u{2000}' <= c <= '\u{200a}'
    ||| c == '\u{2028}'
    ||| c == '\u{2029}'
    ||| c == '\u{202f}'
    ||| c == '\u{205f}'
    ||| c == '\u{3000}'
}

/// `s` without its leading white space.
pub open spec fn trim_start_spec(s: Seq<char>) -> Seq<char>
    decreases s.len(),
{
    if s.len() > 0 && is_white_space(s[0]) {
        trim_start_spec(s.drop_first())
    } else {
        s
    }
}

/// `s` without its trailing white space.
pub open spec fn trim_end_spec(s: Seq<char>) -> Seq<char>
    decreases s.len(),
{
    if s.len() > 0 && is_white_space(s.last()) {
        trim_end_spec(s.drop_last())
    } else {
        s
    }
}

/// `s` without its leading and trailing white space.
pub open spec fn trimmed(s: Seq<char>) -> Seq<char> {
    trim_end_spec(trim_start_spec(s))
}

/// `str::trim`: the text with its leading and trailing white space (`White_Space`
/// characters) removed, and nothing else changed.
#[verifier::external_body]
fn trim(s: &str) -> (r: &str)
    ensures
        r@ == trimmed(s@),
{
    s.trim()
}

pub open spec fn is_ascii_digit(c: char) -> bool {
    '0' <= c <= '9'
}

/// The value of a run of decimal digits.
pub open spec fn digits_value(ds: Seq<char>) -> int
    decreases ds.len(),
{
    if ds.len() == 0 {
        0
    } else {
        digits_value(ds.drop_last()) * 10 + (ds.last() as int - '0' as int)
    }
}

/// Length of a leading `+` or `-` sign (0 or 1).
pub open spec fn sign_len(s: Seq<char>) -> int {
    if s.len() > 0 && (s[0] == '-' || s[0] == '+') {
        1
    } else {
        0
    }
}

/// Every character is a decimal digit.
pub open spec fn all_digits(ds: Seq<char>) -> bool {
    forall|i: int| 0 <= i < ds.len() ==> is_ascii_digit(#[trigger] ds[i])
}

/// What `str::parse::<i64>` returns: an optional `+` or `-` followed by at least one
/// decimal digit, the value fitting in an `i64`; anything else is an error.
pub open spec fn parse_i64_spec(s: Seq<char>) -> Option<i64> {
    let ds = s.skip(sign_len(s));
    let v = if s.len() > 0 && s[0] == '-' { -digits_value(ds) } else { digits_value(ds) };
    if ds.len() > 0 && all_digits(ds) && i64::MIN <= v <= i64::MAX {
        Some(v as i64)
    } else {
        None
    }
}

proof fn lemma_digits_value_prefix(ds: Seq<char>, i: int)
    requires
        0 <= i <= ds.len(),
        forall|k: int| 0 <= k < ds.len() ==> is_ascii_digit(#[trigger] ds[k]),
    ensures
        0 <= digits_value(ds.take(i)) <= digits_value(ds),
    decreases ds.len() - i,
{
    if i < ds.len() {
        lemma_digits_value_prefix(ds, i + 1);
        assert(ds.take(i + 1).drop_last() =~= ds.take(i));
        assert(ds.take(i + 1).last() == ds[i]);
        assert(is_ascii_digit(ds[i]));
    } else {
        assert(ds.take(i) =~= ds);
        lemma_digits_value_nonneg(ds);
    }
}

proof fn lemma_digits_value_nonneg(ds: Seq<char>)
    requires
        forall|k: int| 0 <= k < ds.len() ==> is_ascii_digit(#[trigger] ds[k]),
    ensures
        0 <= digits_value(ds),
    decreases ds.len(),
{
    if ds.len() > 0 {
        assert(is_ascii_digit(ds[ds.len() - 1]));
        lemma_digits_value_nonneg(ds.drop_last());
    }
}

/// Parses a decimal `i64` as `str::parse::<i64>` does.
pub fn parse_i64(s: &str) -> (r: Option<i64>)
    ensures
        r == parse_i64_spec(s@),
{
    let cs = chars_of(s);
    let ghost t = s@;
    let n = cs.len();
    let neg = n > 0 && cs[0] == '-';
    let start: usize = if n > 0 && (cs[0] == '-' || cs[0] == '+') { 1 } else { 0 };
    let ghost ds = t.skip(start as int);
    if start >= n {
        return None;
    }
    assert(sign_len(t) == start);
    let mut i: usize = start;
    while i < n
        invariant
            cs@ == t,
            t == s@,
            n == t.len(),
            start <= i <= n,
            start <= 1,
            (start == 1) == (t.len() > 0 && (t[0] == '-' || t[0] == '+')),
            neg == (t.len() > 0 && t[0] == '-'),
            ds == t.skip(start as int),
            forall|k: int| 0 <= k < i - start ==> is_ascii_digit(#[trigger] ds[k]),
        decreases n - i,
    {
        if !('0' <= cs[i] && cs[i] <= '9') {
            proof {
                assert(ds[i - start] == t[i as int]);
                assert(!is_ascii_digit(ds[i - start]));
                assert(!all_digits(ds));
            }
            return None;
        }
        proof {
            assert(ds[i - start] == t[i as int]);
        }
        i += 1;
    }
    // all digits; accumulate with overflow checks
    let mut acc: i64 = 0;
    let mut j: usize = start;
    proof {
        assert(ds.take(0) =~= Seq::<char>::empty());
    }
    while j < n
        invariant
            cs@ == t,
            t == s@,
            n == t.len(),
            start <= j <= n,
            start <= 1,
            (start == 1) == (t.len() > 0 && (t[0] == '-' || t[0] == '+')),
            neg == (t.len() > 0 && t[0] == '-'),
            ds == t.skip(start as int),
            ds.len() == n - start,
            forall|k: int| 0 <= k < ds.len() ==> is_ascii_digit(#[trigger] ds[k]),
            acc == (if neg { -digits_value(ds.take(j - start)) } else { digits_value(ds.take(j - start)) }),
        decreases n - j,
    {
        let ghost p = ds.take(j - start);
        proof {
            assert(ds.take(j - start + 1).drop_last() =~= p);
            assert(ds.take(j - start + 1).last() == t[j as int]);
            assert(ds[j - start] == t[j as int]);
            assert(is_ascii_digit(ds[j - start]));
            lemma_digits_value_prefix(ds, j - start + 1);
        }
        let d: i64 = (cs[j] as u32 - '0' as u32) as i64;
        let next = if neg {
            match acc.checked_mul(10) {
                Some(m) => m.checked_sub(d),
                None => None,
            }
        } else {
            match acc.checked_mul(10) {
                Some(m) => m.checked_add(d),
                None => None,
            }
        };
        match next {
            Some(v) => {
                acc = v;
            },
            None => {
                proof {
                    let q = ds.take(j - start + 1);
                    assert(digits_value(q) == digits_value(p) * 10 + (t[j as int] as int - '0' as int));
                    assert(digits_value(ds) >= digits_value(q));
                    let v = if neg { -digits_value(ds) } else { digits_value(ds) };
                    assert(!(i64::MIN <= v <= i64::MAX));
                }
                return None;
            },
        }
        j += 1;
    }
    proof {
        assert(ds.take(ds.len() as int) =~= ds);
    }
    Some(acc)
}

/// The records limit typed in the form, already trimmed: `无限制` ("unlimited") or nothing
/// means unlimited (-1); a number is taken as it is; anything else gives 5000.
pub open spec fn max_records_from_text_spec(t: Seq<char>) -> i64 {
    if t == "无限制"@ || t.len() == 0 {
        -1i64
    } else {
        match parse_i64_spec(t) {
            Some(v) => v,
            None => 5000i64,
        }
    }
}

/// The records limit from the trimmed text of the form.
pub fn max_records_from_trimmed(t: &str) -> (r: i64)
    ensures
        r == max_records_from_text_spec(t@),
{
    if str_eq(t, "无限制") || t.is_empty() {
        -1
    } else {
        match parse_i64(t) {
            Some(v) => v,
            None => 5000,
        }
    }
}

/// The records limit from the text of the form, surrounding white space ignored.
pub fn parse_max_records(text: &str) -> (r: i64)
    ensures
        r == max_records_from_text_spec(trimmed(text@)),
{
    max_records_from_trimmed(trim(text))
}

/// The position of a mode in the mode list: automatic paste first, then confirm-then-paste.
pub fn mode_index(mode: InteractionMode) -> (r: u32)
    ensures
        r == (if mode == InteractionMode::ConfirmThenPaste { 1u32 } else { 0u32 }),
{
    match mode {
        InteractionMode::ConfirmThenPaste => 1,
        InteractionMode::AutoPaste => 0,
    }
}

/// The text of an integer in decimal, with a `-` when negative.
pub open spec fn int_text(n: int) -> Seq<char> {
    if n < 0 {
        seq!['-'] + decimal((-n) as nat)
    } else {
        decimal(n as nat)
    }
}

/// What the form shows for a records limit: `无限制` for -1, else the number.
pub open spec fn max_records_text_spec(max: i64) -> Seq<char> {
    if max == -1 {
        "无限制"@
    } else {
        int_text(max as int)
    }
}

pub fn max_records_text(max: i64) -> (r: String)
    ensures
        r@ == max_records_text_spec(max),
{
    if max == -1 {
        return String::from_str("无限制");
    }
    let mut r = String::new();
    if max < 0 {
        push_char(&mut r, '-');
        let a: i128 = -(max as i128);
        push_decimal(&mut r, a as u64);
    } else {
        push_decimal(&mut r, max as u64);
    }
    proof {
        assert(r@ =~= max_records_text_spec(max));
    }
    r
}

/// The settings as saved from the form: the mode from the list selection (1 is
/// confirm-then-paste), the records limit from its text, image storage from the check box;
/// the hotkey and the ignore list stay as they were.
pub fn apply_settings_form(config: &mut Config, mode_selection: isize, max_text: &str, check_state: isize)
    ensures
        final(config).interaction_mode == (if mode_selection == 1 {
            InteractionMode::ConfirmThenPaste
        } else {
            InteractionMode::AutoPaste
        }),
        final(config).max_records == max_records_from_text_spec(trimmed(max_text@)),
        final(config).image_storage_enabled == ((check_state as u32) == BST_CHECKED),
        final(config).hotkey_modifiers == old(config).hotkey_modifiers,
        final(config).hotkey_vk == old(config).hotkey_vk,
        final(config).ignore_list == old(config).ignore_list,
{
    config.interaction_mode = if mode_selection == 1 {
        InteractionMode::ConfirmThenPaste
    } else {
        InteractionMode::AutoPaste
    };
    config.max_records = parse_max_records(max_text);
    config.image_storage_enabled = (check_state as u32) == BST_CHECKED;
}

proof fn lemma_digit_char_value(d: nat)
    requires
        d < 10,
    ensures
        digit_char(d) as int - '0' as int == d,
        is_ascii_digit(digit_char(d)),
{
    assert('0' as int == 48);
    assert('1' as int == 49);
    assert('2' as int == 50);
    assert('3' as int == 51);
    assert('4' as int == 52);
    assert('5' as int == 53);
    assert('6' as int == 54);
    assert('7' as int == 55);
    assert('8' as int == 56);
    assert('9' as int == 57);
}

proof fn lemma_decimal_digits(n: nat)
    ensures
        all_digits(decimal(n)),
        digits_value(decimal(n)) == n,
        decimal(n).len() > 0,
        is_ascii_digit(decimal(n)[0]),
    decreases n,
{
    if n < 10 {
        let d = decimal(n);
        lemma_digit_char_value(n);
        assert(d.drop_last() =~= Seq::<char>::empty());
        assert(digits_value(d.drop_last()) == 0);
        assert(d.last() == digit_char(n));
    } else {
        lemma_digit_char_value(n % 10);
        lemma_decimal_digits(n / 10);
        let d = decimal(n);
        assert(d.drop_last() =~= decimal(n / 10));
        assert(d.last() == digit_char(n % 10));
        assert(digits_value(d) == digits_value(decimal(n / 10)) * 10 + (n % 10));
        assert((n / 10) * 10 + n % 10 == n);
        assert(d[0] == decimal(n / 10)[0]);
        assert forall|i: int| 0 <= i < d.len() implies is_ascii_digit(#[trigger] d[i]) by {
            if i < d.len() - 1 {
                assert(d[i] == decimal(n / 10)[i]);
            }
        }
    }
}

/// A text that neither starts nor ends with white space is its own trimmed form.
proof fn lemma_trimmed_unchanged(t: Seq<char>)
    requires
        t.len() > 0,
        !is_white_space(t[0]),
        !is_white_space(t.last()),
    ensures
        trimmed(t) == t,
{
    assert(trim_start_spec(t) == t);
}

/// The limit shown in the settings form, saved back unchanged, gives the same limit.
pub proof fn lemma_max_records_round_trip(m: i64)
    ensures
        max_records_from_text_spec(trimmed(max_records_text_spec(m))) == m,
{
    reveal_strlit("无限制");
    let t = max_records_text_spec(m);
    if m != -1 {
        if m >= 0 {
            lemma_decimal_digits(m as nat);
            assert(sign_len(t) == 0);
            assert(t.skip(0) =~= t);
            assert(is_ascii_digit(t[t.len() - 1]));
        } else {
            lemma_decimal_digits((-m) as nat);
            assert(t[0] == '-');
            assert(sign_len(t) == 1);
            assert(t.skip(1) =~= decimal((-m) as nat));
            assert(t.last() == decimal((-m) as nat).last());
            assert(is_ascii_digit(decimal((-m) as nat)[decimal((-m) as nat).len() - 1]));
        }
        assert(t != "无限制"@) by {
            assert("无限制"@[0] == '无');
        }
    }
    lemma_trimmed_unchanged(t);
}

} // verus!
