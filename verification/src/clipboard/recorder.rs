//! The decisions of the clipboard recorder: which captures to record, how a record is
//! made from a capture, and its content hash.
use vstd::prelude::*;
use vstd::utf8::encode_utf8;
use sha2::{Digest, Sha256};
use crate::clipboard::listener::SkipMarker;
use crate::clipboard::types::{
    content_blob_spec, content_text_spec, content_type_name, content_type_spec, copy_bytes,
    RawClipContent,
};
use crate::clipboard::wildcard::{
    anywhere, glob, has_substring, lemma_anywhere_literal, lemma_literal_glob, lemma_wildcard_is_glob,
    literal, star_free, wildcard_match, wildcard_spec,
};
use crate::storage::models::{ClipRecord, NewClipRecord};
use crate::utils::config::IgnoreRule;
use crate::utils::text::{chars_of, push_char, str_eq, utf16_encode, w};

verus! {

/// What SHA-256 computes for a byte string.
pub uninterp spec fn sha256_digest(data: Seq<u8>) -> Seq<u8>;

/// What `str::to_lowercase` computes for a text (Unicode lower-case mapping).
pub uninterp spec fn lowercase(s: Seq<char>) -> Seq<char>;

/// `sha2::Sha256::digest`: the SHA-256 digest of `data`, 32 bytes long. The digest is
/// named `sha256_digest`; the hash function itself is left unstated.
#[verifier::external_body]
fn sha256(data: &[u8]) -> (r: Vec<u8>)
    ensures
        r@ == sha256_digest(data@),
        r@.len() == 32,
{
    Sha256::digest(data).to_vec()
}

/// A lower-case hexadecimal digit.
pub open spec fn hex_lower_digit(d: nat) -> char {
    if d < 10 {
        crate::utils::text::digit_char(d)
    } else if d == 10 { 'a' } else if d == 11 { 'b' } else if d == 12 { 'c' } else if d == 13 { 'd' }
    else if d == 14 { 'e' } else { 'f' }
}

/// Each byte as two lower-case hexadecimal digits, high digit first.
pub open spec fn hex_lower(bytes: Seq<u8>) -> Seq<char>
    decreases bytes.len(),
{
    if bytes.len() == 0 {
        Seq::empty()
    } else {
        hex_lower(bytes.drop_last()) + seq![
            hex_lower_digit((bytes.last() / 16) as nat),
            hex_lower_digit((bytes.last() % 16) as nat),
        ]
    }
}

/// `hex::encode`: each byte as two lower-case hexadecimal digits.
#[verifier::external_body]
fn hex_encode(bytes: &[u8]) -> (r: String)
    ensures
        r@ == hex_lower(bytes@),
{
    hex::encode(bytes)
}

/// `str::to_lowercase`: the result is the text's Unicode lower-case mapping, which is named
/// `lowercase` here; the mapping itself (a table of the Unicode database) is left unstated.
#[verifier::external_body]
fn to_lowercase(s: &str) -> (r: String)
    ensures
        r@ == lowercase(s@),
{
    s.to_lowercase()
}

/// The bytes of several texts one after another, in UTF-8.
pub open spec fn concat_utf8(texts: Seq<String>) -> Seq<u8>
    decreases texts.len(),
{
    if texts.len() == 0 {
        Seq::empty()
    } else {
        concat_utf8(texts.drop_last()) + encode_utf8(texts.last()@)
    }
}

/// The bytes that identify a capture: its text in UTF-8, then its image bytes, then each
/// file path in UTF-8.
pub open spec fn hash_input(c: RawClipContent) -> Seq<u8> {
    (if c.text is Some { encode_utf8(c.text.unwrap()@) } else { Seq::empty() }) + (if c.image is Some {
        c.image.unwrap()@
    } else {
        Seq::empty()
    }) + (if c.file_paths is Some { concat_utf8(c.file_paths.unwrap()@) } else { Seq::empty() })
}

/// The content hash of a capture: the SHA-256 of its bytes, in lower-case hexadecimal.
pub open spec fn content_hash_spec(c: RawClipContent) -> Seq<char> {
    hex_lower(sha256_digest(hash_input(c)))
}

/// The hash of an image-only capture is the hash of all its image bytes.
pub proof fn lemma_image_hash_covers_every_byte(c: RawClipContent)
    requires
        c.text is None,
        c.file_paths is None,
        c.image is Some,
    ensures
        hash_input(c) == c.image.unwrap()@,
        content_hash_spec(c) == hex_lower(sha256_digest(c.image.unwrap()@)),
{
    assert(hash_input(c) =~= c.image.unwrap()@);
}

/// The hash of a text-only capture is the hash of the UTF-8 bytes of all its text.
pub proof fn lemma_text_hash_covers_every_byte(c: RawClipContent)
    requires
        c.text is Some,
        c.image is None,
        c.file_paths is None,
    ensures
        hash_input(c) == encode_utf8(c.text.unwrap()@),
{
    assert(hash_input(c) =~= encode_utf8(c.text.unwrap()@));
}

/// The hash of a file-only capture is the hash of the UTF-8 bytes of all its paths, one
/// after another.
pub proof fn lemma_file_hash_covers_every_path(c: RawClipContent)
    requires
        c.text is None,
        c.image is None,
        c.file_paths is Some,
    ensures
        hash_input(c) == concat_utf8(c.file_paths.unwrap()@),
        c.file_paths.unwrap()@.len() > 0 ==> hash_input(c) == concat_utf8(
            c.file_paths.unwrap()@.drop_last(),
        ) + encode_utf8(c.file_paths.unwrap()@.last()@),
{
    assert(hash_input(c) =~= concat_utf8(c.file_paths.unwrap()@));
}

/// Two captures with the same text and files whose image bytes differ anywhere have
/// different hash inputs.
pub proof fn lemma_images_differ_hash_inputs_differ(c1: RawClipContent, c2: RawClipContent)
    requires
        c1.text == c2.text,
        c1.file_paths == c2.file_paths,
        c1.image is Some,
        c2.image is Some,
        c1.image.unwrap()@ != c2.image.unwrap()@,
    ensures
        hash_input(c1) != hash_input(c2),
{
    let a = if c1.text is Some { encode_utf8(c1.text.unwrap()@) } else { Seq::<u8>::empty() };
    let z = if c1.file_paths is Some { concat_utf8(c1.file_paths.unwrap()@) } else { Seq::<u8>::empty() };
    let b1 = c1.image.unwrap()@;
    let b2 = c2.image.unwrap()@;
    assert(hash_input(c1) == a + b1 + z);
    assert(hash_input(c2) == a + b2 + z);
    if hash_input(c1) == hash_input(c2) {
        assert(b1.len() == b2.len());
        assert((a + b1 + z).subrange(a.len() as int, (a.len() + b1.len()) as int) =~= b1);
        assert((a + b2 + z).subrange(a.len() as int, (a.len() + b2.len()) as int) =~= b2);
    }
}

fn append_bytes(buf: &mut Vec<u8>, bytes: &[u8])
    ensures
        final(buf)@ == old(buf)@ + bytes@,
{
    let ghost start = buf@;
    let mut i: usize = 0;
    while i < bytes.len()
        invariant
            i <= bytes.len(),
            buf@ == start + bytes@.take(i as int),
        decreases bytes.len() - i,
    {
        buf.push(bytes[i]);
        i += 1;
        proof {
            assert(buf@ =~= start + bytes@.take(i as int));
        }
    }
    proof {
        assert(bytes@.take(bytes.len() as int) =~= bytes@);
    }
}

/// The content hash that identifies a capture, so that the same content is stored once.
pub fn compute_hash(content: &RawClipContent) -> (r: String)
    ensures
        r@ == content_hash_spec(*content),
{
    let mut buf: Vec<u8> = Vec::new();
    if let Some(t) = &content.text {
        append_bytes(&mut buf, t.as_str().as_bytes());
    }
    let ghost after_text = buf@;
    if let Some(img) = &content.image {
        append_bytes(&mut buf, img.as_slice());
    }
    let ghost after_image = buf@;
    if let Some(paths) = &content.file_paths {
        let mut k: usize = 0;
        while k < paths.len()
            invariant
                k <= paths.len(),
                buf@ == after_image + concat_utf8(paths@.take(k as int)),
            decreases paths.len() - k,
        {
            append_bytes(&mut buf, paths[k].as_str().as_bytes());
            k += 1;
            proof {
                assert(paths@.take(k as int).drop_last() =~= paths@.take(k - 1));
                assert(buf@ =~= after_image + concat_utf8(paths@.take(k as int)));
            }
        }
        proof {
            assert(paths@.take(paths.len() as int) =~= paths@);
        }
    }
    proof {
        assert(buf@ =~= hash_input(*content));
    }
    let digest = sha256(buf.as_slice());
    hex_encode(digest.as_slice())
}

/// `c` is a drive-letter path (`C:\...`) or a network path (`\\...`).
pub open spec fn looks_like_path_spec(s: Seq<char>) -> bool {
    ||| s.len() >= 3 && (('A' <= s[0] && s[0] <= 'Z') || ('a' <= s[0] && s[0] <= 'z')) && s[1] == ':'
        && s[2] == '\\'
    ||| s.len() >= 2 && s[0] == '\\' && s[1] == '\\'
}

/// Whether copied text looks like the path of a file.
pub fn looks_like_file_path(text: &str) -> (r: bool)
    ensures
        r == looks_like_path_spec(text@),
{
    let cs = chars_of(text);
    if cs.len() >= 3 {
        let c0 = cs[0];
        if cs[1] == ':' && cs[2] == '\\' && (('A' <= c0 && c0 <= 'Z') || ('a' <= c0 && c0 <= 'z')) {
            return true;
        }
    }
    cs.len() >= 2 && cs[0] == '\\' && cs[1] == '\\'
}

/// A text of the clipboard that names an existing file (`text_names_file`: the caller
/// checked the disk) when it looks like a path.
pub open spec fn file_text(text: Seq<char>, text_names_file: bool) -> bool {
    text.len() > 0 && looks_like_path_spec(text) && text_names_file
}

/// The capture assembled from what was read off the clipboard: the text when not empty, the
/// image bytes when not empty, the dropped file paths when there are any, except that a text
/// naming an existing file stands in for them; `None` when nothing is left to record.
pub fn assemble_capture(
    text: String,
    image: Vec<u8>,
    paths: Vec<String>,
    has_hdrop: bool,
    text_names_file: bool,
) -> (r: Option<RawClipContent>)
    ensures
        r is None <==> (text@.len() == 0 && image@.len() == 0 && paths@.len() == 0),
        r matches Some(c) ==> {
            &&& c.text == (if text@.len() > 0 { Some(text) } else { None::<String> })
            &&& c.image == (if image@.len() > 0 { Some(image) } else { None::<Vec<u8>> })
            &&& (if file_text(text@, text_names_file) {
                c.file_paths matches Some(v) && v@.len() == 1 && v@[0]@ == text@
            } else if paths@.len() > 0 {
                c.file_paths == Some(paths)
            } else {
                c.file_paths is None
            })
            &&& c.has_hdrop == has_hdrop
            &&& c.source_app is None
        },
{
    let is_file_text = text.as_str().unicode_len() > 0 && looks_like_file_path(text.as_str())
        && text_names_file;
    let file_paths = if is_file_text {
        let mut v: Vec<String> = Vec::new();
        v.push(text.clone());
        Some(v)
    } else if paths.len() > 0 {
        Some(paths)
    } else {
        None
    };
    let t = if text.as_str().unicode_len() > 0 { Some(text) } else { None };
    let i = if image.len() > 0 { Some(image) } else { None };
    if t.is_none() && i.is_none() && file_paths.is_none() {
        None
    } else {
        Some(RawClipContent { text: t, image: i, file_paths, has_hdrop, source_app: None })
    }
}

/// Whether a rule of the given type matches, both texts being already in lower case. `*`
/// and `?` are wildcards in every pattern: a window-title rule and a full-path rule must
/// match the whole text, a process-name rule matches anywhere in it (so a pattern without
/// wildcards matches where it occurs as a substring); rules of other types match nothing.
pub open spec fn rule_matches(rule_type: Seq<char>, app: Seq<char>, pattern: Seq<char>) -> bool {
    if rule_type == "window_title"@ || rule_type == "full_path"@ {
        wildcard_spec(app, pattern)
    } else if rule_type == "process_name"@ {
        wildcard_spec(app, anywhere(pattern))
    } else {
        false
    }
}

/// The pattern with a `*` on each side.
fn surround_with_stars(p: &str) -> (r: String)
    ensures
        r@ == anywhere(p@),
{
    let mut r = String::new();
    push_char(&mut r, '*');
    r.append(p);
    push_char(&mut r, '*');
    proof {
        assert(r@ =~= anywhere(p@));
    }
    r
}

/// Whether a rule matches an application, given the lower-cased application name and pattern.
pub fn rule_matches_lowered(rule_type: &str, lowered_app: &str, lowered_pattern: &str) -> (r: bool)
    ensures
        r == rule_matches(rule_type@, lowered_app@, lowered_pattern@),
{
    if str_eq(rule_type, "window_title") || str_eq(rule_type, "full_path") {
        wildcard_match(lowered_app, lowered_pattern)
    } else if str_eq(rule_type, "process_name") {
        let anywhere_pattern = surround_with_stars(lowered_pattern);
        wildcard_match(lowered_app, anywhere_pattern.as_str())
    } else {
        false
    }
}

/// For an application name without `*`: a window-title rule and a full-path rule match
/// exactly when the whole name is a glob match of the pattern, so a pattern without
/// wildcards matches only the equal name; a process-name pattern without wildcards matches
/// exactly when it occurs in the name; a rule of another type never matches.
pub proof fn lemma_rule_matching(rule_type: Seq<char>, app: Seq<char>, pattern: Seq<char>)
    requires
        star_free(app),
    ensures
        rule_matches("window_title"@, app, pattern) == glob(app, pattern),
        rule_matches("full_path"@, app, pattern) == glob(app, pattern),
        literal(pattern) ==> rule_matches("window_title"@, app, pattern) == (app == pattern),
        literal(pattern) ==> rule_matches("full_path"@, app, pattern) == (app == pattern),
        literal(pattern) ==> rule_matches("process_name"@, app, pattern) == has_substring(app, pattern),
        rule_type != "window_title"@ && rule_type != "full_path"@ && rule_type != "process_name"@
            ==> !rule_matches(rule_type, app, pattern),
{
    reveal_strlit("window_title");
    reveal_strlit("full_path");
    reveal_strlit("process_name");
    assert("window_title"@[0] == 'w' && "full_path"@[0] == 'f' && "process_name"@[0] == 'p');
    assert("window_title"@ != "full_path"@);
    assert("window_title"@ != "process_name"@);
    assert("full_path"@ != "process_name"@);
    lemma_wildcard_is_glob(app, pattern);
    if literal(pattern) {
        lemma_literal_glob(app, pattern);
        lemma_anywhere_literal(app, pattern);
    }
}

/// Some rule of the list matches the application, case being ignored.
pub open spec fn ignored_by(app: Seq<char>, rules: Seq<IgnoreRule>) -> bool {
    exists|i: int| 0 <= i < rules.len() && rule_matches(#[trigger] rules[i].rule_type@, lowercase(app),
        lowercase(rules[i].pattern@))
}

/// Whether content from the application `app_name` is kept out of the history.
pub fn is_app_ignored(app_name: &str, ignore_list: &Vec<IgnoreRule>) -> (r: bool)
    ensures
        r == ignored_by(app_name@, ignore_list@),
{
    if ignore_list.len() == 0 {
        return false;
    }
    let al = to_lowercase(app_name);
    let mut i: usize = 0;
    while i < ignore_list.len()
        invariant
            i <= ignore_list.len(),
            al@ == lowercase(app_name@),
            forall|k: int| 0 <= k < i ==> !rule_matches(#[trigger] ignore_list@[k].rule_type@, lowercase(app_name@),
                lowercase(ignore_list@[k].pattern@)),
        decreases ignore_list.len() - i,
    {
        let rule = &ignore_list[i];
        let p = to_lowercase(rule.pattern.as_str());
        if rule_matches_lowered(rule.rule_type.as_str(), al.as_str(), p.as_str()) {
            return true;
        }
        i += 1;
    }
    false
}

/// How a clipboard change is handled.
#[derive(Debug, Clone, Copy, PartialEq, Eq, Structural)]
pub enum CaptureStep {
    /// The change was the application's own write-back.
    Skipped,
    /// The change came from an ignored application.
    Ignored,
    /// The clipboard is to be read and recorded.
    Record,
}

/// The first decision on a clipboard change: a pending write-back skip wins (and is
/// consumed), then the ignore list.
pub fn begin_capture(skip_marker: &mut SkipMarker, source_app: &str, ignore_list: &Vec<IgnoreRule>) -> (r: CaptureStep)
    ensures
        !final(skip_marker).is_set(),
        r == (if old(skip_marker).is_set() {
            CaptureStep::Skipped
        } else if ignored_by(source_app@, ignore_list@) {
            CaptureStep::Ignored
        } else {
            CaptureStep::Record
        }),
{
    if skip_marker.should_skip() {
        CaptureStep::Skipped
    } else if is_app_ignored(source_app, ignore_list) {
        CaptureStep::Ignored
    } else {
        CaptureStep::Record
    }
}

/// The record to store for a capture from `source_app`.
pub fn build_new_record(content: &RawClipContent, source_app: String, image_storage_enabled: bool) -> (r: NewClipRecord)
    ensures
        r.content_hash@ == content_hash_spec(*content),
        r.content_type@ == content_type_name(content_type_spec(*content)),
        r.content_text matches Some(t) ==> content_text_spec(*content) == Some(t@),
        r.content_text is None ==> content_text_spec(*content) is None,
        r.content_blob matches Some(b) ==> content_blob_spec(*content, image_storage_enabled) == Some(b@),
        r.content_blob is None ==> content_blob_spec(*content, image_storage_enabled) is None,
        r.source_app == Some(source_app),
        r.source@ == "local_clipboard"@,
{
    let hash = compute_hash(content);
    let content_type = content.determine_content_type();
    NewClipRecord {
        content_hash: hash,
        content_type: String::from_str(content_type.as_str()),
        content_text: content.get_content_text(),
        content_blob: content.get_content_blob(image_storage_enabled),
        source_app: Some(source_app),
        source: String::from_str("local_clipboard"),
    }
}

/// What writing a record back to the clipboard puts there.
#[derive(Debug, Clone)]
pub enum WritebackData {
    /// UTF-16 text with its terminating zero (`CF_UNICODETEXT`).
    UnicodeText(Vec<u16>),
    /// Bitmap bytes (`CF_DIB`).
    Dib(Vec<u8>),
    /// Nothing: the record has no content of its kind.
    Nothing,
}

/// Text and file records are written back as their text, image records as their bytes.
pub fn writeback_data(record: &ClipRecord) -> (r: WritebackData)
    ensures
        (record.content_type@ == "text"@ || record.content_type@ == "file"@) ==> (match record.content_text {
            Some(t) => r matches WritebackData::UnicodeText(w) && w@ == utf16_encode(t@).push(0u16),
            None => r is Nothing,
        }),
        record.content_type@ == "image"@ ==> (match record.content_blob {
            Some(b) => r matches WritebackData::Dib(d) && d@ == b@,
            None => r is Nothing,
        }),
        !(record.content_type@ == "text"@ || record.content_type@ == "file"@ || record.content_type@
            == "image"@) ==> r is Nothing,
{
    proof {
        reveal_strlit("text");
        reveal_strlit("file");
        reveal_strlit("image");
        assert("text"@.len() == 4 && "text"@[0] == 't');
        assert("file"@.len() == 4 && "file"@[0] == 'f');
        assert("image"@.len() == 5);
    }
    let ct = record.content_type.as_str();
    if str_eq(ct, "text") || str_eq(ct, "file") {
        match &record.content_text {
            Some(t) => WritebackData::UnicodeText(w(t.as_str())),
            None => WritebackData::Nothing,
        }
    } else if str_eq(ct, "image") {
        match &record.content_blob {
            Some(b) => WritebackData::Dib(copy_bytes(b)),
            None => WritebackData::Nothing,
        }
    } else {
        WritebackData::Nothing
    }
}

/// A simulated key press or release: virtual key and `keybd_event` flags.
#[derive(Debug, Clone, Copy, PartialEq, Eq, Structural)]
pub struct KeyStroke {
    pub vk: u8,
    pub flags: u32,
}

pub const VK_CONTROL: u8 = 0x11;
pub const VK_V: u8 = 0x56;
pub const KEYEVENTF_EXTENDEDKEY: u32 = 0x0001;
pub const KEYEVENTF_KEYUP: u32 = 0x0002;

/// The key strokes that paste into the focused window: Ctrl down, V down, V up, Ctrl up.
pub fn ctrl_v_strokes() -> (r: Vec<KeyStroke>)
    ensures
        r@ == seq![
            KeyStroke { vk: VK_CONTROL, flags: KEYEVENTF_EXTENDEDKEY },
            KeyStroke { vk: VK_V, flags: KEYEVENTF_EXTENDEDKEY },
            KeyStroke { vk: VK_V, flags: KEYEVENTF_EXTENDEDKEY | KEYEVENTF_KEYUP },
            KeyStroke { vk: VK_CONTROL, flags: KEYEVENTF_EXTENDEDKEY | KEYEVENTF_KEYUP },
        ],
{
    let mut r: Vec<KeyStroke> = Vec::new();
    r.push(KeyStroke { vk: VK_CONTROL, flags: KEYEVENTF_EXTENDEDKEY });
    r.push(KeyStroke { vk: VK_V, flags: KEYEVENTF_EXTENDEDKEY });
    r.push(KeyStroke { vk: VK_V, flags: KEYEVENTF_EXTENDEDKEY | KEYEVENTF_KEYUP });
    r.push(KeyStroke { vk: VK_CONTROL, flags: KEYEVENTF_EXTENDEDKEY | KEYEVENTF_KEYUP });
    proof {
        assert(r@ =~= seq![
            KeyStroke { vk: VK_CONTROL, flags: KEYEVENTF_EXTENDEDKEY },
            KeyStroke { vk: VK_V, flags: KEYEVENTF_EXTENDEDKEY },
            KeyStroke { vk: VK_V, flags: KEYEVENTF_EXTENDEDKEY | KEYEVENTF_KEYUP },
            KeyStroke { vk: VK_CONTROL, flags: KEYEVENTF_EXTENDEDKEY | KEYEVENTF_KEYUP },
        ]);
    }
    r
}

} // verus!
