use codex_y::bin_view::{bin_error_items, bin_items, bin_title, restore_failure_message, BinThread, ThreadPager, TRASH_PAGE_LIMIT};
use codex_y::thread_id::ThreadId;

const ROOT: &str = "67e55044-10b1-426f-9247-bb680e5fe0c8";

#[test]
fn picker_lists_restorable_threads() {
    let threads = vec![
        BinThread { id: ROOT.to_string(), name: Some("Fix bug".to_string()), preview: "p".to_string(), cwd: "/w".to_string() },
        BinThread { id: "bad".to_string(), name: None, preview: "q".to_string(), cwd: "/x".to_string() },
        BinThread { id: ROOT.to_uppercase(), name: None, preview: "Preview".to_string(), cwd: "/y".to_string() },
    ];
    let items = bin_items(&threads);
    assert_eq!(items.len(), 2);
    assert_eq!(items[0].name, "Fix bug");
    assert_eq!(items[0].description.as_deref(), Some("/w"));
    assert_eq!(items[0].restore, Some(ThreadId::from_string(ROOT).unwrap()));
    assert_eq!(items[1].name, "Preview");
    assert_eq!(items[1].description.as_deref(), Some("/y"));
}

#[test]
fn picker_messages() {
    assert_eq!(bin_title(), "Bin · 30 days · Enter to restore");
    let items = bin_error_items("timeout");
    assert_eq!(items.len(), 1);
    assert_eq!(items[0].name, "Could not open bin: timeout");
    assert!(items[0].restore.is_none());
    assert_eq!(restore_failure_message("gone"), "Could not restore task: gone");
}

#[test]
fn pager_gathers_pages_until_no_cursor() {
    assert_eq!(TRASH_PAGE_LIMIT, 100);
    let mut pager: ThreadPager<u32> = ThreadPager::new();
    assert!(pager.cursor.is_none());
    pager.accept(vec![1, 2], Some("c1".to_string()));
    assert!(!pager.finished);
    assert_eq!(pager.cursor.as_deref(), Some("c1"));
    pager.accept(Vec::new(), Some("c2".to_string()));
    pager.accept(vec![3], None);
    assert!(pager.finished);
    assert_eq!(pager.threads, vec![1, 2, 3]);
}
