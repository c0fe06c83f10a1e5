//! What the history panel shows: the one-line preview of each record, the text of the
//! preview window, and where the panel and the preview window are placed.
use vstd::prelude::*;
use crate::storage::models::{ClipRecord, Timestamp};
use crate::win32::{POINT, RECT};
use vstd::utf8::encode_utf8;
use crate::utils::text::{
    chars_of, decimal, lemma_encode_utf8_concat, lemma_utf8_len_take, lemma_utf8_len_take_mono, push_char, push_decimal,
    push_decimal_padded, str_eq, utf8_len, utf8_width, zero_pad,
};

verus! {

/// Index of the first `'\n'` of `s`, or its length when there is none.
pub open spec fn newline_pos(s: Seq<char>) -> int
    decreases s.len(),
{
    if s.len() == 0 {
        0
    } else if s[0] == '\n' {
        0
    } else {
        1 + newline_pos(s.drop_first())
    }
}

/// The first line of `s`, as `str::lines` yields it: up to the first `'\n'`, without a
/// `'\r'` just before it; the whole text when it has no `'\n'`.
pub open spec fn first_line(s: Seq<char>) -> Seq<char> {
    let k = newline_pos(s);
    if k < s.len() && k > 0 && s[k - 1] == '\r' {
        s.take(k - 1)
    } else {
        s.take(k)
    }
}

/// How many leading characters of `s` fit in `budget` bytes of UTF-8.
pub open spec fn fit_len(s: Seq<char>, budget: int) -> nat
    decreases s.len(),
{
    if s.len() == 0 || utf8_width(s[0]) > budget {
        0
    } else {
        1 + fit_len(s.drop_first(), budget - utf8_width(s[0]))
    }
}

/// The first line of `s`; when it is longer than `max` bytes, its longest prefix of at most
/// `max` bytes that ends on a character boundary, followed by `...`.
pub open spec fn truncate_spec(s: Seq<char>, max: nat) -> Seq<char> {
    let line = first_line(s);
    if utf8_len(line) > max {
        let j = fit_len(line, max as int);
        if j == 0 {
            seq!['.', '.', '.']
        } else {
            line.take(j as int) + seq!['.', '.', '.']
        }
    } else {
        line
    }
}

proof fn lemma_newline_pos(s: Seq<char>, k: int)
    requires
        0 <= k <= s.len(),
        forall|j: int| 0 <= j < k ==> s[j] != '\n',
        k < s.len() ==> s[k] == '\n',
    ensures
        newline_pos(s) == k,
    decreases k,
{
    if k > 0 {
        assert forall|j: int| 0 <= j < k - 1 implies s.drop_first()[j] != '\n' by {
            assert(s[j + 1] != '\n');
        }
        lemma_newline_pos(s.drop_first(), k - 1);
    }
}

/// Bytes of UTF-8 that one character takes.
pub fn char_utf8_width(c: char) -> (n: usize)
    ensures
        n == utf8_width(c),
{
    let v = c as u32;
    if v < 0x80 {
        1
    } else if v < 0x800 {
        2
    } else if v < 0x10000 {
        3
    } else {
        4
    }
}

/// The first line of `s`, shortened to at most `max` bytes plus `...` when longer.
pub fn truncate(s: &str, max: usize) -> (r: String)
    ensures
        r@ == truncate_spec(s@, max as nat),
{
    let cs = chars_of(s);
    let ghost t = s@;
    let mut k: usize = 0;
    while k < cs.len() && cs[k] != '\n'
        invariant
            cs@ == t,
            k <= cs.len(),
            forall|j: int| 0 <= j < k ==> t[j] != '\n',
        decreases cs.len() - k,
    {
        k += 1;
    }
    proof {
        lemma_newline_pos(t, k as int);
    }
    let end: usize = if k < cs.len() && k > 0 && cs[k - 1] == '\r' {
        k - 1
    } else {
        k
    };
    let line: &str = s.substring_char(0, end);
    let ghost l = line@;
    assert(l == first_line(t));
    // the longest prefix of the line that fits in `max` bytes
    let mut i: usize = 0;
    let mut used: usize = 0;
    proof {
        assert(l.take(0) =~= Seq::<char>::empty());
        assert(l.skip(0) =~= l);
    }
    while i < end && char_utf8_width(cs[i]) <= max - used
        invariant
            end == l.len(),
            end <= cs.len(),
            forall|j: int| 0 <= j < end ==> cs@[j] == l[j],
            i <= end,
            used <= max,
            used == utf8_len(l.take(i as int)),
            fit_len(l, max as int) == i + fit_len(l.skip(i as int), max - used),
        decreases end - i,
    {
        proof {
            lemma_utf8_len_take(l, i as int);
            assert(l.skip(i as int)[0] == l[i as int]);
            assert(l.skip(i as int).drop_first() =~= l.skip(i + 1));
        }
        used = used + char_utf8_width(cs[i]);
        i += 1;
    }
    proof {
        if i < end {
            assert(l.skip(i as int)[0] == l[i as int]);
            lemma_utf8_len_take(l, i as int);
            lemma_utf8_len_take_mono(l, i + 1, end as int);
            assert(l.take(end as int) =~= l);
            assert(utf8_len(l) > max);
        } else {
            assert(l.skip(i as int).len() == 0);
            assert(l.take(end as int) =~= l);
        }
        assert(fit_len(l, max as int) == i);
    }
    if i == end {
        line.to_owned()
    } else if i == 0 {
        let mut r = String::new();
        r.append("...");
        proof {
            reveal_strlit("...");
        }
        r
    } else {
        let mut r = line.substring_char(0, i).to_owned();
        r.append("...");
        proof {
            reveal_strlit("...");
            assert(r@ =~= l.take(i as int) + seq!['.', '.', '.']);
        }
        r
    }
}

/// Text of a year as `%Y` prints it: four digits, zero-padded, for years 0 to 9999, and
/// with a sign otherwise.
pub open spec fn year_text(y: int) -> Seq<char> {
    if 0 <= y <= 9999 {
        zero_pad(decimal(y as nat), 4)
    } else if y > 9999 {
        seq!['+'] + decimal(y as nat)
    } else {
        seq!['-'] + zero_pad(decimal((-y) as nat), 4)
    }
}

/// A number as `%m`, `%d`, `%H` or `%M` print it: at least two digits.
pub open spec fn two_digits(n: u32) -> Seq<char> {
    zero_pad(decimal(n as nat), 2)
}

/// `%Y<sep>%m<sep>%d %H:%M`.
pub open spec fn stamp_text(t: Timestamp, sep: char) -> Seq<char> {
    year_text(t.year as int) + seq![sep] + two_digits(t.month) + seq![sep] + two_digits(t.day)
        + seq![' '] + two_digits(t.hour) + seq![':'] + two_digits(t.minute)
}

fn push_year(s: &mut String, y: i32)
    ensures
        final(s)@ == old(s)@ + year_text(y as int),
{
    if 0 <= y && y <= 9999 {
        push_decimal_padded(s, y as u64, 4);
    } else if y > 9999 {
        push_char(s, '+');
        push_decimal(s, y as u64);
        proof {
            assert(final(s)@ =~= old(s)@ + year_text(y as int));
        }
    } else {
        push_char(s, '-');
        let a: i64 = -(y as i64);
        push_decimal_padded(s, a as u64, 4);
        proof {
            assert(final(s)@ =~= old(s)@ + year_text(y as int));
        }
    }
}

/// Appends the timestamp as `%Y<sep>%m<sep>%d %H:%M`.
pub fn push_stamp(s: &mut String, t: &Timestamp, sep: char)
    ensures
        final(s)@ == old(s)@ + stamp_text(*t, sep),
{
    let ghost s0 = s@;
    let ghost a = year_text(t.year as int);
    let ghost b = a + seq![sep] + two_digits(t.month);
    let ghost c = b + seq![sep] + two_digits(t.day);
    let ghost d = c + seq![' '] + two_digits(t.hour);
    push_year(s, t.year);
    push_char(s, sep);
    push_decimal_padded(s, t.month as u64, 2);
    assert(s@ =~= s0 + b);
    push_char(s, sep);
    push_decimal_padded(s, t.day as u64, 2);
    assert(s@ =~= s0 + c);
    push_char(s, ' ');
    push_decimal_padded(s, t.hour as u64, 2);
    assert(s@ =~= s0 + d);
    push_char(s, ':');
    push_decimal_padded(s, t.minute as u64, 2);
    assert(s@ =~= s0 + (d + seq![':'] + two_digits(t.minute)));
}

/// The label of a record in the list, before its time.
pub open spec fn preview_label(r: ClipRecord) -> Seq<char> {
    if r.content_type@ == "image"@ {
        "[图片]"@
    } else {
        match r.content_text {
            Some(t) => truncate_spec(t@, 55),
            None => if r.content_type@ == "file"@ {
                "[文件]"@
            } else {
                "[空]"@
            },
        }
    }
}

/// The list line of a record: its label, two spaces, and its creation time.
pub open spec fn preview_line(r: ClipRecord) -> Seq<char> {
    preview_label(r) + "  "@ + stamp_text(r.created_at, '.')
}

/// A list line ends with the record's creation time, and it does not depend on when the
/// record was last changed: records that differ only in `updated_at` get the same line.
pub proof fn lemma_line_shows_creation_time(r: ClipRecord, t: Timestamp)
    ensures
        preview_line(r).len() >= stamp_text(r.created_at, '.').len(),
        preview_line(r).skip(preview_line(r).len() - stamp_text(r.created_at, '.').len())
            == stamp_text(r.created_at, '.'),
        preview_line(ClipRecord { updated_at: t, ..r }) == preview_line(r),
{
    let st = stamp_text(r.created_at, '.');
    let head = preview_label(r) + "  "@;
    assert(preview_line(r) == head + st);
    assert((head + st).skip(head.len() as int) =~= st);
}

/// The line that the history list shows for `record`.
pub fn format_preview(record: &ClipRecord) -> (r: String)
    ensures
        r@ == preview_line(*record),
{
    let max: usize = 55;
    let mut line = if str_eq(record.content_type.as_str(), "image") {
        String::from_str("[图片]")
    } else {
        match &record.content_text {
            Some(t) => truncate(t.as_str(), max),
            None => if str_eq(record.content_type.as_str(), "file") {
                String::from_str("[文件]")
            } else {
                String::from_str("[空]")
            },
        }
    };
    line.append("  ");
    push_stamp(&mut line, &record.created_at, '.');
    line
}

/// At most this many characters of a record are shown in the preview window.
pub const MAX_PREVIEW_CHARS: usize = 8000;

/// The full text that the preview window shows for a record.
pub open spec fn preview_content_spec(r: ClipRecord) -> Seq<char> {
    if r.content_type@ == "image"@ {
        "[图片]"@
    } else {
        match r.content_text {
            Some(t) => t@,
            None => "[空]"@,
        }
    }
}

pub fn preview_content(record: &ClipRecord) -> (r: String)
    ensures
        r@ == preview_content_spec(*record),
{
    if str_eq(record.content_type.as_str(), "image") {
        String::from_str("[图片]")
    } else {
        match &record.content_text {
            Some(t) => t.clone(),
            None => String::from_str("[空]"),
        }
    }
}

/// The preview text, cut to its first `MAX_PREVIEW_CHARS` characters with a note when longer.
pub open spec fn preview_body_spec(content: Seq<char>) -> Seq<char> {
    if content.len() > MAX_PREVIEW_CHARS {
        content.take(MAX_PREVIEW_CHARS as int) + "\n\n...（内容过长，仅显示前 8000 字符）"@
    } else {
        content
    }
}

pub fn preview_body(content: &str) -> (r: String)
    ensures
        r@ == preview_body_spec(content@),
{
    if content.unicode_len() > MAX_PREVIEW_CHARS {
        let mut r = content.substring_char(0, MAX_PREVIEW_CHARS).to_owned();
        r.append("\n\n...（内容过长，仅显示前 8000 字符）");
        r
    } else {
        content.to_owned()
    }
}

/// The title of the preview window: the record's creation time as `%Y-%m-%d %H:%M`.
pub fn preview_title(created_at: &Timestamp) -> (r: String)
    ensures
        r@ == stamp_text(*created_at, '-'),
{
    let mut r = String::new();
    push_stamp(&mut r, created_at, '-');
    r
}

/// Width of the panel window.
pub const PANEL_WIDTH: i32 = 460;

/// Height of the panel window, title bar included.
pub const PANEL_HEIGHT: i32 = 530;

/// The panel's horizontal position: centred on the cursor, moved in when it would cross
/// the left or the right edge of the work area.
pub open spec fn panel_x_spec(cursor_x: int, work: RECT) -> int {
    let x0 = cursor_x - PANEL_WIDTH / 2;
    let x1 = if x0 < work.left { work.left + 4 } else { x0 };
    if x1 + PANEL_WIDTH > work.right { work.right - PANEL_WIDTH - 4 } else { x1 }
}

/// The panel's vertical position: below the cursor, or above it when it would cross the
/// bottom of the work area, but not above the top.
pub open spec fn panel_y_spec(cursor_y: int, work: RECT) -> int {
    let y0 = cursor_y + 10;
    if y0 + PANEL_HEIGHT > work.bottom {
        let y1 = cursor_y - PANEL_HEIGHT - 10;
        if y1 < work.top { work.top + 4 } else { y1 }
    } else {
        y0
    }
}

/// The placement arithmetic stays within `i32`.
pub open spec fn panel_origin_fits(cursor: POINT, work: RECT) -> bool {
    &&& i32::MIN <= cursor.x - PANEL_WIDTH / 2
    &&& work.left + 4 <= i32::MAX
    &&& {
        let x0 = cursor.x - PANEL_WIDTH / 2;
        let x1 = if x0 < work.left { work.left + 4 } else { x0 };
        x1 + PANEL_WIDTH <= i32::MAX
    }
    &&& i32::MIN <= work.right - PANEL_WIDTH - 4
    &&& cursor.y + 10 + PANEL_HEIGHT <= i32::MAX
    &&& i32::MIN <= cursor.y - PANEL_HEIGHT - 10
    &&& work.top + 4 <= i32::MAX
}

/// Where the panel opens for a cursor position and the work area of its monitor.
pub fn panel_origin(cursor: POINT, work: RECT) -> (r: POINT)
    requires
        panel_origin_fits(cursor, work),
    ensures
        r.x == panel_x_spec(cursor.x as int, work),
        r.y == panel_y_spec(cursor.y as int, work),
{
    let mut x = cursor.x - PANEL_WIDTH / 2;
    if x < work.left {
        x = work.left + 4;
    }
    if x + PANEL_WIDTH > work.right {
        x = work.right - PANEL_WIDTH - 4;
    }
    let mut y = cursor.y + 10;
    if y + PANEL_HEIGHT > work.bottom {
        y = cursor.y - PANEL_HEIGHT - 10;
        if y < work.top {
            y = work.top + 4;
        }
    }
    POINT { x, y }
}

/// Width of the preview window.
pub const PREVIEW_WIDTH: i32 = 600;

/// Height of the preview window.
pub const PREVIEW_HEIGHT: i32 = 400;

/// The preview window's position: to the right of the panel, level with its top; when the
/// monitor's work area is known and it would cross its right edge, to the left of the
/// panel instead, but not past the left edge.
pub open spec fn preview_x_spec(panel: RECT, work: Option<RECT>) -> int {
    let x0 = panel.right + 2;
    if work is Some && x0 + PREVIEW_WIDTH > work.unwrap().right {
        let x1 = panel.left - PREVIEW_WIDTH - 2;
        if x1 < work.unwrap().left { work.unwrap().left + 4 } else { x1 }
    } else {
        x0
    }
}

/// The preview placement arithmetic stays within `i32`.
pub open spec fn preview_origin_fits(panel: RECT, work: Option<RECT>) -> bool {
    &&& panel.right + 2 + PREVIEW_WIDTH <= i32::MAX
    &&& i32::MIN <= panel.left - PREVIEW_WIDTH - 2
    &&& work matches Some(w) ==> w.left + 4 <= i32::MAX
}

/// Where the preview window opens beside the panel.
pub fn preview_origin(panel: RECT, work: Option<RECT>) -> (r: POINT)
    requires
        preview_origin_fits(panel, work),
    ensures
        r.x == preview_x_spec(panel, work),
        r.y == panel.top,
{
    let mut x = panel.right + 2;
    if let Some(w) = work {
        if x + PREVIEW_WIDTH > w.right {
            x = panel.left - PREVIEW_WIDTH - 2;
            if x < w.left {
                x = w.left + 4;
            }
        }
    }
    POINT { x, y: panel.top }
}

/// A point of the panel (client coordinates) over the search box, the list or the button
/// row belongs to those controls; elsewhere the panel is dragged like a title bar.
pub open spec fn over_controls_spec(pt: POINT) -> bool {
    ||| 4 <= pt.x <= 456 && 6 <= pt.y <= 30
    ||| 0 <= pt.x <= 460 && 34 <= pt.y <= 452
    ||| 456 <= pt.y <= 484
}

pub fn over_controls(pt: POINT) -> (r: bool)
    ensures
        r == over_controls_spec(pt),
{
    if pt.x >= 4 && pt.x <= 456 && pt.y >= 6 && pt.y <= 30 {
        return true;
    }
    if pt.x >= 0 && pt.x <= 460 && pt.y >= 34 && pt.y <= 452 {
        return true;
    }
    pt.y >= 456 && pt.y <= 484
}

/// The part of a list row that a click falls in.
#[derive(Debug, Clone, Copy, PartialEq, Eq, Structural)]
pub enum RowZone {
    /// The row's text.
    Text,
    /// The star that toggles the favourite flag (the 24 pixels left of the last 24).
    Star,
    /// The `>` that opens the preview (the last 24 pixels).
    Open,
}

pub open spec fn row_zone_spec(x: int, width: int) -> RowZone {
    if width - 48 <= x < width - 24 {
        RowZone::Star
    } else if width - 24 <= x < width {
        RowZone::Open
    } else {
        RowZone::Text
    }
}

/// The part of a row of a list `width` pixels wide that a click at `x` falls in.
pub fn row_zone(x: i32, width: i32) -> (r: RowZone)
    requires
        i32::MIN + 48 <= width,
    ensures
        r == row_zone_spec(x as int, width as int),
{
    if x >= width - 48 && x < width - 24 {
        RowZone::Star
    } else if x >= width - 24 && x < width {
        RowZone::Open
    } else {
        RowZone::Text
    }
}

/// Colours of a row: its text, its star, and its `>`.
pub struct RowColors {
    pub text: u32,
    pub star: u32,
    pub arrow: u32,
}

/// Selected rows have white text and a gold star; otherwise the text is black and the star
/// gold for favourites, light grey for the rest; the `>` is grey when selected, else black.
pub fn row_colors(selected: bool, is_favorite: bool) -> (r: RowColors)
    ensures
        r.text == (if selected { 0x00FFFFFFu32 } else { 0x00000000u32 }),
        r.star == (if selected || is_favorite { 0x0000D7FFu32 } else { 0x00CCCCCCu32 }),
        r.arrow == (if selected { 0x00AAAAAAu32 } else { 0x00000000u32 }),
{
    RowColors {
        text: if selected { 0x00FFFFFF } else { 0x00000000 },
        star: if selected || is_favorite { 0x0000D7FF } else { 0x00CCCCCC },
        arrow: if selected { 0x00AAAAAA } else { 0x00000000 },
    }
}

/// The star drawn on a row: filled (U+2605) for favourites, hollow (U+2606) otherwise.
pub fn star_glyph(is_favorite: bool) -> (r: u16)
    ensures
        r == (if is_favorite { 0x2605u16 } else { 0x2606u16 }),
{
    if is_favorite { 0x2605 } else { 0x2606 }
}

/// The list line of a record: in delete mode a check box (`☑ ` when checked, `☐ `
/// otherwise) before its preview line.
pub open spec fn list_line_spec(r: ClipRecord, delete_mode: bool, checked: bool) -> Seq<char> {
    (if delete_mode {
        if checked { "☑ "@ } else { "☐ "@ }
    } else {
        Seq::empty()
    }) + preview_line(r)
}

pub fn list_line(record: &ClipRecord, delete_mode: bool, checked: bool) -> (r: String)
    ensures
        r@ == list_line_spec(*record, delete_mode, checked),
{
    let mut line = if delete_mode {
        if checked {
            String::from_str("☑ ")
        } else {
            String::from_str("☐ ")
        }
    } else {
        String::new()
    };
    let preview = format_preview(record);
    line.append(preview.as_str());
    proof {
        assert(line@ =~= list_line_spec(*record, delete_mode, checked));
    }
    line
}

/// The label of the favourites filter button.
pub fn favorite_filter_label(on: bool) -> (r: &'static str)
    ensures
        r@ == (if on { "★ 收藏"@ } else { "☆ 收藏"@ }),
{
    if on { "★ 收藏" } else { "☆ 收藏" }
}

/// The question asked before deleting `n` checked records.
pub open spec fn delete_question_spec(n: nat) -> Seq<char> {
    "确定要删除 "@ + decimal(n) + " 条记录吗？"@
}

pub fn delete_question(n: usize) -> (r: String)
    ensures
        r@ == delete_question_spec(n as nat),
{
    let mut r = String::from_str("确定要删除 ");
    push_decimal(&mut r, n as u64);
    r.append(" 条记录吗？");
    r
}

proof fn lemma_fit_len_bytes(l: Seq<char>, b: int)
    requires
        b >= 0,
    ensures
        fit_len(l, b) <= l.len(),
        utf8_len(l.take(fit_len(l, b) as int)) <= b,
    decreases l.len(),
{
    let j = fit_len(l, b);
    if l.len() == 0 || utf8_width(l[0]) > b {
        assert(l.take(0) =~= Seq::<char>::empty());
        assert(encode_utf8(Seq::<char>::empty()) =~= Seq::<u8>::empty());
    } else {
        let w = utf8_width(l[0]);
        lemma_fit_len_bytes(l.drop_first(), b - w);
        let k = fit_len(l.drop_first(), b - w) as int;
        assert(l.take(k + 1) =~= seq![l[0]] + l.drop_first().take(k));
        lemma_encode_utf8_concat(seq![l[0]], l.drop_first().take(k));
        lemma_utf8_len_take(l, 0);
        assert(l.take(0) =~= Seq::<char>::empty());
        assert(l.take(1) =~= seq![l[0]]);
        assert(encode_utf8(Seq::<char>::empty()) =~= Seq::<u8>::empty());
    }
}

/// A shortened line never takes more than `max` bytes plus the three of `...`; a first line
/// that fits is kept whole; a shortened line starts with a prefix of the first line.
pub proof fn lemma_truncate_fits(s: Seq<char>, max: nat)
    ensures
        utf8_len(truncate_spec(s, max)) <= max + 3,
        utf8_len(first_line(s)) <= max ==> truncate_spec(s, max) == first_line(s),
        utf8_len(first_line(s)) > max ==> exists|j: int|
            0 <= j <= first_line(s).len() && truncate_spec(s, max) == first_line(s).take(j) + seq!['.', '.', '.'],
{
    let line = first_line(s);
    let dots = seq!['.', '.', '.'];
    assert(utf8_len(dots) == 3) by {
        assert(dots.take(0) =~= Seq::<char>::empty());
        assert(encode_utf8(Seq::<char>::empty()) =~= Seq::<u8>::empty());
        lemma_utf8_len_take(dots, 0);
        lemma_utf8_len_take(dots, 1);
        lemma_utf8_len_take(dots, 2);
        assert(dots.take(3) =~= dots);
    }
    if utf8_len(line) > max {
        lemma_fit_len_bytes(line, max as int);
        let j = fit_len(line, max as int);
        if j == 0 {
            assert(truncate_spec(s, max) == line.take(0) + dots) by {
                assert(line.take(0) + dots =~= dots);
            }
        } else {
            lemma_encode_utf8_concat(line.take(j as int), dots);
        }
    }
}

/// When the work area is at least 468 by 534 pixels and the cursor is inside it, the
/// panel opens entirely inside the work area.
pub proof fn lemma_panel_within_work_area(cursor: POINT, work: RECT)
    requires
        work.right - work.left >= PANEL_WIDTH + 8,
        work.bottom - work.top >= PANEL_HEIGHT + 4,
        work.top <= cursor.y <= work.bottom,
    ensures
        work.left <= panel_x_spec(cursor.x as int, work),
        panel_x_spec(cursor.x as int, work) + PANEL_WIDTH <= work.right,
        work.top <= panel_y_spec(cursor.y as int, work),
        panel_y_spec(cursor.y as int, work) + PANEL_HEIGHT <= work.bottom,
{
}

} // verus!
