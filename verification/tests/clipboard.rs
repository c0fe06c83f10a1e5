use clipboardx::clipboard::listener::SkipMarker;
use clipboardx::clipboard::recorder::{
    assemble_capture, begin_capture, build_new_record, compute_hash, ctrl_v_strokes, is_app_ignored,
    looks_like_file_path, rule_matches_lowered, writeback_data, CaptureStep, KeyStroke, WritebackData,
};
use clipboardx::clipboard::types::{ClipData, ContentType, RawClipContent};
use clipboardx::clipboard::wildcard::wildcard_match;
use clipboardx::storage::models::{ClipRecord, Timestamp};
use clipboardx::utils::config::IgnoreRule;

fn raw(text: Option<&str>, image: Option<Vec<u8>>, paths: Option<Vec<&str>>) -> RawClipContent {
    RawClipContent {
        text: text.map(|t| t.to_string()),
        image,
        file_paths: paths.map(|ps| ps.into_iter().map(|p| p.to_string()).collect()),
        has_hdrop: false,
        source_app: None,
    }
}

fn rule(kind: &str, pattern: &str) -> IgnoreRule {
    IgnoreRule { rule_type: kind.to_string(), pattern: pattern.to_string() }
}

fn ts() -> Timestamp {
    Timestamp { year: 2024, month: 3, day: 5, hour: 9, minute: 7, second: 0 }
}

fn record(kind: &str, text: Option<&str>, blob: Option<Vec<u8>>) -> ClipRecord {
    ClipRecord {
        id: 1,
        content_hash: "h".to_string(),
        content_type: kind.to_string(),
        content_text: text.map(|t| t.to_string()),
        content_blob: blob,
        source_app: None,
        source: "local_clipboard".to_string(),
        is_favorite: false,
        created_at: ts(),
        updated_at: ts(),
    }
}

#[test]
fn skip_marker_suppresses_exactly_one_capture() {
    let mut m = SkipMarker::new();
    assert!(!m.should_skip());
    m.set();
    assert!(m.should_skip());
    assert!(!m.should_skip());
    m.set();
    m.clear();
    assert!(!m.should_skip());
}

#[test]
fn write_back_change_is_skipped_once() {
    let mut m = SkipMarker::new();
    m.set();
    m.after_write_back(true);
    assert!(m.should_skip());
    assert!(!m.should_skip());
    m.set();
    m.after_write_back(false);
    assert!(!m.should_skip());
}

#[test]
fn content_type_names_round_trip() {
    for c in [ContentType::Text, ContentType::Image, ContentType::File] {
        assert_eq!(ContentType::from_str(c.as_str()), c);
    }
    assert_eq!(ContentType::Text.as_str(), "text");
    assert_eq!(ContentType::Image.as_str(), "image");
    assert_eq!(ContentType::File.as_str(), "file");
    assert_eq!(ContentType::from_str("whatever"), ContentType::Text);
    assert_eq!(ContentType::from_str("IMAGE"), ContentType::Text);
}

#[test]
fn content_type_priority_text_image_file() {
    assert_eq!(raw(Some("a"), Some(vec![1]), Some(vec!["C:\\x"])).determine_content_type(), ContentType::Text);
    assert_eq!(raw(None, Some(vec![1]), Some(vec!["C:\\x"])).determine_content_type(), ContentType::Image);
    assert_eq!(raw(None, None, Some(vec!["C:\\x"])).determine_content_type(), ContentType::File);
    assert_eq!(raw(None, None, None).determine_content_type(), ContentType::Text);
}

#[test]
fn content_text_prefers_text_then_first_path() {
    assert_eq!(raw(Some("hi"), None, Some(vec!["C:\\a"])).get_content_text(), Some("hi".to_string()));
    assert_eq!(raw(Some(""), None, Some(vec!["C:\\a", "C:\\b"])).get_content_text(), Some("C:\\a".to_string()));
    assert_eq!(raw(None, None, Some(vec![])).get_content_text(), None);
    assert_eq!(raw(None, Some(vec![1]), None).get_content_text(), None);
}

#[test]
fn content_blob_only_when_enabled() {
    let c = raw(None, Some(vec![1, 2, 3]), None);
    assert_eq!(c.get_content_blob(true), Some(vec![1, 2, 3]));
    assert_eq!(c.get_content_blob(false), None);
    assert_eq!(raw(Some("t"), None, None).get_content_blob(true), None);
}

#[test]
fn has_content_needs_some_format() {
    assert!(!raw(None, None, None).has_content());
    assert!(raw(None, None, Some(vec![])).has_content());
    assert!(raw(Some("x"), None, None).has_content());
}

#[test]
fn clip_data_holds_each_form() {
    let items = vec![ClipData::Text("a".to_string()), ClipData::Image(vec![1]), ClipData::File("C:\\f".to_string())];
    assert_eq!(items.len(), 3);
    assert!(matches!(items[2], ClipData::File(ref p) if p == "C:\\f"));
}

#[test]
fn wildcard_star_and_question_mark() {
    assert!(wildcard_match("notepad", "note*"));
    assert!(wildcard_match("notepad", "*pad"));
    assert!(wildcard_match("notepad", "n?tepad"));
    assert!(wildcard_match("notepad", "*"));
    assert!(wildcard_match("", "*"));
    assert!(wildcard_match("", ""));
    assert!(!wildcard_match("a", ""));
    assert!(!wildcard_match("notepad", "note"));
    assert!(wildcard_match("abcbcd", "a*bcd"));
    assert!(wildcard_match("keepass - db", "*pass*"));
    assert!(!wildcard_match("notepad", "*x*"));
    assert!(wildcard_match("a.b.c", "a*c"));
    assert!(!wildcard_match("ab", "a?c"));
}

#[test]
fn wildcard_star_in_text_is_taken_literally_first() {
    // a `*` in the text is consumed by a `*` of the pattern as an equal character
    assert!(!wildcard_match("*ab", "*b"));
    assert!(!wildcard_match("*a", "*"));
    assert!(wildcard_match("*", "*"));
    assert!(wildcard_match("x*ab", "*b"));
}

#[test]
fn file_path_detection() {
    assert!(looks_like_file_path("C:\\Windows"));
    assert!(looks_like_file_path("d:\\"));
    assert!(looks_like_file_path("\\\\server\\share"));
    assert!(!looks_like_file_path("C:/Windows"));
    assert!(!looks_like_file_path("1:\\x"));
    assert!(!looks_like_file_path("C:"));
    assert!(!looks_like_file_path("\\x"));
    assert!(!looks_like_file_path("é:\\x"));
    assert!(!looks_like_file_path("hello"));
}

#[test]
fn process_name_pattern_matches_anywhere() {
    assert!(rule_matches_lowered("process_name", "chrome.exe", "chrome"));
    assert!(rule_matches_lowered("process_name", "chrome.exe", ""));
    assert!(rule_matches_lowered("process_name", "chrome.exe", ".exe"));
    assert!(!rule_matches_lowered("process_name", "chrome", "chrome.exe"));
    assert!(!rule_matches_lowered("process_name", "abc", "bd"));
    assert!(rule_matches_lowered("process_name", "my bank portal", "b?nk*al"));
}

#[test]
fn rule_types_match_as_documented() {
    assert!(rule_matches_lowered("window_title", "keepass - db", "keepass*"));
    assert!(rule_matches_lowered("process_name", "my keepass app", "keepass"));
    assert!(rule_matches_lowered("full_path", "c:\\a.exe", "c:\\a.exe"));
    assert!(rule_matches_lowered("full_path", "untitled - notepad", "*notepad*"));
    assert!(rule_matches_lowered("full_path", "c:\\a.exe", "c:\\?.exe"));
    assert!(!rule_matches_lowered("full_path", "c:\\a.exe", "c:\\a"));
    assert!(!rule_matches_lowered("full_path", "c:\\a.exe", "c:\\b.exe"));
    assert!(!rule_matches_lowered("other", "x", "x"));
}

#[test]
fn ignore_list_is_case_insensitive() {
    let rules = vec![rule("window_title", "KeePass*"), rule("process_name", "BANK")];
    assert!(is_app_ignored("keepass - Passwords", &rules));
    assert!(is_app_ignored("My Bank Portal", &rules));
    assert!(!is_app_ignored("Notepad", &rules));
    assert!(!is_app_ignored("anything", &vec![]));
}

#[test]
fn wildcards_work_in_every_rule_type() {
    assert!(is_app_ignored("Untitled - Notepad", &vec![rule("full_path", "*NOTEPAD*")]));
    assert!(is_app_ignored("KeePassXC", &vec![rule("process_name", "kee*xc")]));
    assert!(!is_app_ignored("Untitled - Notepad", &vec![rule("full_path", "notepad")]));
}

#[test]
fn capture_decision_order() {
    let rules = vec![rule("full_path", "secret")];
    let mut m = SkipMarker::new();
    m.set();
    assert_eq!(begin_capture(&mut m, "notepad", &rules), CaptureStep::Skipped);
    assert_eq!(begin_capture(&mut m, "Secret", &rules), CaptureStep::Ignored);
    assert_eq!(begin_capture(&mut m, "notepad", &rules), CaptureStep::Record);
}

#[test]
fn hash_is_sha256_hex_of_content_bytes() {
    // SHA-256 of "hello"
    let c = raw(Some("hello"), None, None);
    assert_eq!(compute_hash(&c), "2cf24dba5fb0a30e26e83b2ac5b9e29e1b161e5c1fa7425e73043362938b9824");
    // SHA-256 of the empty input
    let e = raw(None, None, None);
    assert_eq!(compute_hash(&e), "e3b0c44298fc1c149afbf4c8996fb92427ae41e4649b934ca495991b7852b855");
    // text, then image bytes, then paths: "he" + "llo" is the same stream
    let split = raw(Some("he"), Some(b"llo".to_vec()), None);
    assert_eq!(compute_hash(&split), compute_hash(&c));
    let via_paths = raw(None, None, Some(vec!["he", "llo"]));
    assert_eq!(compute_hash(&via_paths), compute_hash(&c));
    assert_ne!(compute_hash(&raw(Some("hellp"), None, None)), compute_hash(&c));
}

#[test]
fn new_record_from_capture() {
    let c = raw(Some("copied"), Some(vec![9]), None);
    let r = build_new_record(&c, "Editor".to_string(), true);
    assert_eq!(r.content_hash, compute_hash(&c));
    assert_eq!(r.content_type, "text");
    assert_eq!(r.content_text, Some("copied".to_string()));
    assert_eq!(r.content_blob, Some(vec![9]));
    assert_eq!(r.source_app, Some("Editor".to_string()));
    assert_eq!(r.source, "local_clipboard");
    let r2 = build_new_record(&raw(None, Some(vec![9]), None), "Paint".to_string(), false);
    assert_eq!(r2.content_type, "image");
    assert_eq!(r2.content_blob, None);
    assert_eq!(r2.content_text, None);
}

#[test]
fn writeback_by_record_type() {
    match writeback_data(&record("text", Some("Ab"), None)) {
        WritebackData::UnicodeText(w) => assert_eq!(w, vec![0x41, 0x62, 0]),
        _ => panic!("expected text"),
    }
    match writeback_data(&record("file", Some("C:\\f"), None)) {
        WritebackData::UnicodeText(w) => assert_eq!(w, vec![0x43, 0x3A, 0x5C, 0x66, 0]),
        _ => panic!("expected text"),
    }
    match writeback_data(&record("image", Some("ignored"), Some(vec![1, 2]))) {
        WritebackData::Dib(d) => assert_eq!(d, vec![1, 2]),
        _ => panic!("expected bitmap"),
    }
    assert!(matches!(writeback_data(&record("image", None, None)), WritebackData::Nothing));
    assert!(matches!(writeback_data(&record("text", None, None)), WritebackData::Nothing));
    assert!(matches!(writeback_data(&record("other", Some("x"), None)), WritebackData::Nothing));
}

#[test]
fn paste_keystrokes() {
    let s = ctrl_v_strokes();
    assert_eq!(s, vec![
        KeyStroke { vk: 0x11, flags: 1 },
        KeyStroke { vk: 0x56, flags: 1 },
        KeyStroke { vk: 0x56, flags: 3 },
        KeyStroke { vk: 0x11, flags: 3 },
    ]);
}

#[test]
fn capture_is_assembled_from_what_was_read() {
    assert!(assemble_capture(String::new(), vec![], vec![], false, false).is_none());
    let c = assemble_capture("hi".to_string(), vec![], vec![], false, false).unwrap();
    assert_eq!(c.text, Some("hi".to_string()));
    assert_eq!(c.image, None);
    assert_eq!(c.file_paths, None);
    let c = assemble_capture(String::new(), vec![1, 2], vec!["C:\\a.txt".to_string()], true, false).unwrap();
    assert_eq!(c.text, None);
    assert_eq!(c.image, Some(vec![1, 2]));
    assert_eq!(c.file_paths, Some(vec!["C:\\a.txt".to_string()]));
    assert!(c.has_hdrop);
    // A text naming an existing file stands in for the dropped paths.
    let c = assemble_capture("C:\\b.txt".to_string(), vec![], vec!["C:\\a.txt".to_string()], true, true).unwrap();
    assert_eq!(c.file_paths, Some(vec!["C:\\b.txt".to_string()]));
    // A text that does not look like a path does not, even when the caller says it exists.
    let c = assemble_capture("notes".to_string(), vec![], vec![], false, true).unwrap();
    assert_eq!(c.file_paths, None);
}
