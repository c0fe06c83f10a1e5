use clipboardx::app::{AppState, ListingRequest, StorageWarning};
use clipboardx::storage::models::{ClipRecord, Timestamp};
use clipboardx::utils::config::Config;

fn rec(id: i64, fav: bool) -> ClipRecord {
    let t = Timestamp { year: 2024, month: 1, day: 1, hour: 0, minute: 0, second: 0 };
    ClipRecord {
        id,
        content_hash: format!("h{}", id),
        content_type: "text".to_string(),
        content_text: Some(format!("r{}", id)),
        content_blob: None,
        source_app: None,
        source: "local_clipboard".to_string(),
        is_favorite: fav,
        created_at: t,
        updated_at: t,
    }
}

fn state_with(max: i64) -> AppState {
    let mut c = Config::default();
    c.max_records = max;
    AppState::new(c)
}

#[test]
fn fresh_state() {
    let s = state_with(5000);
    assert!(!s.panel_visible);
    assert!(s.records.is_empty());
    assert!(s.search_keyword.is_empty());
    assert_eq!(s.selected_index, -1);
    assert_eq!(s.pending_paste_id, None);
}

#[test]
fn listing_limit_and_mode() {
    assert_eq!(state_with(5000).record_limit(), 5000);
    assert_eq!(state_with(-1).record_limit(), 10000);
    assert_eq!(state_with(0).record_limit(), 10000);
    assert_eq!(state_with(10000).record_limit(), 10000);
    assert_eq!(state_with(9999).record_limit(), 9999);
    match state_with(50).listing_request() {
        ListingRequest::Recent { limit, offset } => assert_eq!((limit, offset), (50, 0)),
        _ => panic!("expected recent listing"),
    }
    let mut s = state_with(50);
    s.search_keyword = "abc".to_string();
    match s.listing_request() {
        ListingRequest::Search(q) => {
            assert_eq!(q.keyword, Some("abc".to_string()));
            assert_eq!(q.content_type_filter, None);
            assert!(!q.favorite_only);
            assert_eq!((q.limit, q.offset), (50, 0));
        }
        _ => panic!("expected search"),
    }
}

#[test]
fn delete_removes_all_with_id() {
    let mut s = state_with(5000);
    s.records = vec![rec(1, false), rec(2, false), rec(1, false), rec(3, false)];
    assert!(s.finish_delete(1, true));
    assert_eq!(s.records.iter().map(|r| r.id).collect::<Vec<_>>(), vec![2, 3]);
    assert!(!s.finish_delete(2, false));
    assert_eq!(s.records.len(), 2);
}

#[test]
fn clear_empties_only_on_success() {
    let mut s = state_with(5000);
    s.records = vec![rec(1, false)];
    assert!(!s.finish_clear(false));
    assert_eq!(s.records.len(), 1);
    assert!(s.finish_clear(true));
    assert!(s.records.is_empty());
}

#[test]
fn toggle_favorite_updates_listed_record() {
    let mut s = state_with(5000);
    s.records = vec![rec(1, false), rec(2, false)];
    assert!(s.finish_toggle_favorite(2, Some(true)));
    assert!(s.records[1].is_favorite);
    assert!(!s.records[0].is_favorite);
    assert!(!s.finish_toggle_favorite(2, Some(false)));
    assert!(!s.records[1].is_favorite);
    assert!(!s.finish_toggle_favorite(1, None));
    assert!(s.finish_toggle_favorite(9, Some(true)));
    assert!(s.records.iter().all(|r| !r.is_favorite));
}

#[test]
fn storage_warnings_in_unlimited_mode_only() {
    assert!(state_with(5000).storage_warnings(Some(200_000), Some(2_000_000_000)).is_empty());
    let s = state_with(-1);
    assert_eq!(s.storage_warnings(Some(200_000), Some(2_000_000_000)), vec![
        StorageWarning::RecordCountExceeded(200_000),
        StorageWarning::FileSizeExceeded(2_000_000_000),
    ]);
    assert_eq!(s.storage_warnings(Some(100_000), Some(1_000_000_000)), vec![]);
    assert_eq!(s.storage_warnings(None, Some(1_000_000_001)), vec![StorageWarning::FileSizeExceeded(1_000_000_001)]);
    assert_eq!(s.storage_warnings(Some(100_001), None), vec![StorageWarning::RecordCountExceeded(100_001)]);
}
