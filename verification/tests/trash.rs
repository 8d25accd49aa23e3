use codex_y::rpc::{trash_error, INTERNAL_ERROR_CODE, INVALID_REQUEST_ERROR_CODE};
use codex_y::thread_id::{bin_file_name, ThreadId};
use codex_y::time::{Timestamp, MAX_UTC_SECS, RETENTION_DAYS, RETENTION_SECS};
use codex_y::trash::{bin_file_for, parse_thread_root, restore_plan, StoredThread, TrashEntry, TrashMember};

const ROOT: &str = "67e55044-10b1-426f-9247-bb680e5fe0c8";
const CHILD: &str = "936da01f-9abd-4d9d-80c7-02af85c822a8";

#[test]
fn thread_ids_print_in_canonical_form() {
    let id = ThreadId::from_string(ROOT).unwrap();
    assert_eq!(id.to_string(), ROOT);
    let upper = ThreadId::from_string("67E55044-10B1-426F-9247-BB680E5FE0C8").unwrap();
    assert_eq!(upper, id);
    let simple = ThreadId::from_string("67e5504410b1426f9247bb680e5fe0c8").unwrap();
    assert_eq!(simple.to_string(), ROOT);
    assert_eq!(ThreadId { uuid: 0 }.to_string(), "00000000-0000-0000-0000-000000000000");
    assert_eq!(ThreadId { uuid: u128::MAX }.to_string(), "ffffffff-ffff-ffff-ffff-ffffffffffff");
    assert_eq!(ThreadId { uuid: 0x0123456789abcdef0123456789abcdef }.to_string(), "01234567-89ab-cdef-0123-456789abcdef");
}

#[test]
fn bad_thread_ids_are_invalid_requests() {
    let error = parse_thread_root("not-a-thread").unwrap_err();
    assert_eq!(error.code, INVALID_REQUEST_ERROR_CODE);
    assert_eq!(error.message, uuid::Uuid::parse_str("not-a-thread").unwrap_err().to_string());
    assert_eq!(parse_thread_root(ROOT).unwrap().to_string(), ROOT);
}

#[test]
fn bin_file_names() {
    let id = ThreadId::from_string(ROOT).unwrap();
    assert_eq!(bin_file_name(id), format!("{ROOT}.json"));
    assert_eq!(bin_file_for(ROOT), Some(format!("{ROOT}.json")));
    assert_eq!(bin_file_for("67E55044-10B1-426F-9247-BB680E5FE0C8"), Some(format!("{ROOT}.json")));
    assert_eq!(bin_file_for("x"), None);
}

#[test]
fn trash_errors_are_internal() {
    let error = trash_error("disk full");
    assert_eq!(error.code, INTERNAL_ERROR_CODE);
    assert_eq!(error.code, -32603);
    assert_eq!(error.message, "bin operation failed: disk full");
}

#[test]
fn entries_expire_after_thirty_days() {
    assert_eq!(RETENTION_DAYS, 30);
    assert_eq!(RETENTION_SECS, 30 * 24 * 60 * 60);
    let root = ThreadId::from_string(ROOT).unwrap();
    let now = Timestamp { secs: 1_735_689_600, nanos: 5 };
    let member = TrashMember::recorded(root, StoredThread { archived_at: Some(now), updated_at: now });
    let entry = TrashEntry::new(root, now, vec![member], vec![ROOT.to_string()]);
    assert_eq!(entry.expires_at, Timestamp { secs: 1_735_689_600 + 2_592_000, nanos: 5 });
    assert_eq!(entry.members[0].archived_at, Some(now));
    let fresh = TrashEntry::new_now(root, Vec::new(), Vec::new()).unwrap();
    assert!(fresh.expires_at.secs > 1_600_000_000 + RETENTION_SECS);
}

#[test]
fn restore_unarchives_others_first_and_the_request_last() {
    let root = ThreadId::from_string(ROOT).unwrap();
    let entry = TrashEntry {
        root,
        expires_at: Timestamp { secs: 0, nanos: 0 },
        members: Vec::new(),
        restore_ids: vec![CHILD.to_string(), ROOT.to_string(), "other".to_string()],
    };
    let plan = restore_plan(&entry, root, ROOT).unwrap();
    assert_eq!(plan, vec![CHILD.to_string(), "other".to_string(), ROOT.to_string()]);
    let upper = "67E55044-10B1-426F-9247-BB680E5FE0C8";
    let plan = restore_plan(&entry, root, upper).unwrap();
    assert_eq!(plan, vec![CHILD.to_string(), ROOT.to_string(), "other".to_string(), upper.to_string()]);
}

#[test]
fn restore_refuses_an_entry_of_another_thread() {
    let entry = TrashEntry {
        root: ThreadId::from_string(CHILD).unwrap(),
        expires_at: Timestamp { secs: 0, nanos: 0 },
        members: Vec::new(),
        restore_ids: Vec::new(),
    };
    let error = restore_plan(&entry, ThreadId::from_string(ROOT).unwrap(), ROOT).unwrap_err();
    assert_eq!(error.code, INVALID_REQUEST_ERROR_CODE);
    assert_eq!(error.message, "bin entry does not match thread");
}

#[test]
fn entries_at_the_end_of_chrono_range_are_refused() {
    let root = ThreadId::from_string(ROOT).unwrap();
    let last = Timestamp { secs: MAX_UTC_SECS - RETENTION_SECS, nanos: 0 };
    let entry = TrashEntry::at(root, last, Vec::new(), Vec::new()).unwrap();
    assert_eq!(entry.expires_at.secs, MAX_UTC_SECS);
    let beyond = Timestamp { secs: MAX_UTC_SECS - RETENTION_SECS + 1, nanos: 0 };
    assert!(TrashEntry::at(root, beyond, Vec::new(), Vec::new()).is_none());
    let max = chrono::DateTime::<chrono::Utc>::MAX_UTC;
    assert_eq!(max.timestamp(), MAX_UTC_SECS);
}
