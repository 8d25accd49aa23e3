use codex_y::purge::{Purge, PurgeAction, PurgeEvent, PurgeOutcome, PurgePhase};
use codex_y::thread_id::ThreadId;
use codex_y::time::Timestamp;
use codex_y::trash::{StoredThread, TrashEntry, TrashMember};

const ROOT: &str = "67e55044-10b1-426f-9247-bb680e5fe0c8";
const CHILD: &str = "936da01f-9abd-4d9d-80c7-02af85c822a8";

fn id(text: &str) -> ThreadId {
    ThreadId::from_string(text).unwrap()
}

fn at(secs: i64) -> Timestamp {
    Timestamp { secs, nanos: 0 }
}

fn member(text: &str) -> TrashMember {
    TrashMember { id: id(text), archived_at: Some(at(100)), updated_at: at(90) }
}

fn entry(expires: i64) -> TrashEntry {
    TrashEntry {
        root: id(ROOT),
        expires_at: at(expires),
        members: vec![member(ROOT), member(CHILD)],
        restore_ids: vec![ROOT.to_string(), CHILD.to_string()],
    }
}

fn archived() -> StoredThread {
    StoredThread { archived_at: Some(at(100)), updated_at: at(90) }
}

fn start() -> Purge {
    let (p, action) = Purge::start(Some("json".to_string()), Some(ROOT.to_string()));
    assert_eq!(action, PurgeAction::ReadEntry);
    p
}

/// Feeds the events in order and returns every action after the first.
fn run(events: Vec<PurgeEvent>) -> Vec<PurgeAction> {
    let mut p = start();
    let mut actions = Vec::new();
    for event in events {
        let (next, action) = p.step(event);
        p = next;
        actions.push(action);
    }
    actions
}

#[test]
fn expired_unchanged_subtree_is_purged() {
    let actions = run(vec![
        PurgeEvent::Entry(entry(1000), at(2000)),
        PurgeEvent::Subtree(vec![id(CHILD), id(ROOT)]),
        PurgeEvent::Loaded(false),
        PurgeEvent::Stored(archived()),
        PurgeEvent::Loaded(false),
        PurgeEvent::Stored(archived()),
        PurgeEvent::Deleted,
        PurgeEvent::Removed,
    ]);
    assert_eq!(
        actions,
        vec![
            PurgeAction::ReadSubtree(id(ROOT)),
            PurgeAction::CheckLoaded(id(ROOT)),
            PurgeAction::ReadStored(id(ROOT)),
            PurgeAction::CheckLoaded(id(CHILD)),
            PurgeAction::ReadStored(id(CHILD)),
            PurgeAction::DeleteSubtree(id(ROOT)),
            PurgeAction::RemoveFile,
            PurgeAction::Finish(PurgeOutcome::Purged),
        ]
    );
}

#[test]
fn restored_member_cancels_expiry_without_deleting() {
    let restored = StoredThread { archived_at: None, updated_at: at(90) };
    let actions = run(vec![
        PurgeEvent::Entry(entry(1000), at(2000)),
        PurgeEvent::Subtree(vec![id(ROOT), id(CHILD)]),
        PurgeEvent::Loaded(false),
        PurgeEvent::Stored(restored),
        PurgeEvent::Loaded(false),
        PurgeEvent::Stored(archived()),
        PurgeEvent::Removed,
    ]);
    assert_eq!(actions[5], PurgeAction::RemoveFile);
    assert_eq!(actions[6], PurgeAction::Finish(PurgeOutcome::Cancelled));
    assert!(!actions.iter().any(|a| matches!(a, PurgeAction::DeleteSubtree(_))));
}

#[test]
fn updated_member_cancels_expiry() {
    let updated = StoredThread { archived_at: Some(at(100)), updated_at: at(95) };
    let actions = run(vec![
        PurgeEvent::Entry(entry(1000), at(2000)),
        PurgeEvent::Subtree(vec![id(ROOT), id(CHILD)]),
        PurgeEvent::Loaded(false),
        PurgeEvent::Stored(archived()),
        PurgeEvent::Loaded(false),
        PurgeEvent::Stored(updated),
    ]);
    assert_eq!(actions.last(), Some(&PurgeAction::RemoveFile));
}

#[test]
fn loaded_member_stops_the_checks_and_cancels_expiry() {
    let actions = run(vec![
        PurgeEvent::Entry(entry(1000), at(2000)),
        PurgeEvent::Subtree(vec![id(ROOT), id(CHILD)]),
        PurgeEvent::Loaded(true),
        PurgeEvent::Removed,
    ]);
    assert_eq!(
        actions,
        vec![
            PurgeAction::ReadSubtree(id(ROOT)),
            PurgeAction::CheckLoaded(id(ROOT)),
            PurgeAction::RemoveFile,
            PurgeAction::Finish(PurgeOutcome::Cancelled),
        ]
    );
}

#[test]
fn grown_subtree_cancels_expiry() {
    let other = id("00000000-0000-0000-0000-000000000001");
    let actions = run(vec![
        PurgeEvent::Entry(entry(1000), at(2000)),
        PurgeEvent::Subtree(vec![id(ROOT), id(CHILD), other]),
        PurgeEvent::Loaded(false),
        PurgeEvent::Stored(archived()),
        PurgeEvent::Loaded(false),
        PurgeEvent::Stored(archived()),
    ]);
    assert_eq!(actions.last(), Some(&PurgeAction::RemoveFile));
}

#[test]
fn entry_that_is_not_due_is_kept() {
    assert_eq!(
        run(vec![PurgeEvent::Entry(entry(3000), at(2000))]),
        vec![PurgeAction::Finish(PurgeOutcome::NotDue)]
    );
    let empty = TrashEntry { members: Vec::new(), ..entry(1000) };
    assert_eq!(run(vec![PurgeEvent::Entry(empty, at(2000))]), vec![PurgeAction::Finish(PurgeOutcome::NotDue)]);
    let (p, _) = Purge::start(Some("json".to_string()), Some(CHILD.to_string()));
    let (_, action) = p.step(PurgeEvent::Entry(entry(1000), at(2000)));
    assert_eq!(action, PurgeAction::Finish(PurgeOutcome::NotDue));
}

#[test]
fn expiry_at_exactly_now_is_due() {
    let actions = run(vec![PurgeEvent::Entry(entry(2000), at(2000))]);
    assert_eq!(actions, vec![PurgeAction::ReadSubtree(id(ROOT))]);
    let later = Timestamp { secs: 2000, nanos: 1 };
    let actions = run(vec![PurgeEvent::Entry(TrashEntry { expires_at: later, ..entry(0) }, at(2000))]);
    assert_eq!(actions, vec![PurgeAction::Finish(PurgeOutcome::NotDue)]);
}

#[test]
fn failures_defer_and_keep_the_file() {
    for n in 1..=7 {
        let mut events = vec![
            PurgeEvent::Entry(entry(1000), at(2000)),
            PurgeEvent::Subtree(vec![id(ROOT), id(CHILD)]),
            PurgeEvent::Loaded(false),
            PurgeEvent::Stored(archived()),
            PurgeEvent::Loaded(false),
            PurgeEvent::Stored(archived()),
            PurgeEvent::Deleted,
        ];
        events.truncate(n - 1);
        events.push(PurgeEvent::Failed);
        events.push(PurgeEvent::Removed);
        let actions = run(events);
        let tail = &actions[actions.len() - 2..];
        assert_eq!(tail, &[PurgeAction::Finish(PurgeOutcome::Deferred), PurgeAction::Finish(PurgeOutcome::Deferred)]);
    }
    let actions = run(vec![PurgeEvent::Failed]);
    assert_eq!(actions, vec![PurgeAction::Finish(PurgeOutcome::Deferred)]);
}

#[test]
fn non_json_files_are_skipped() {
    let (p, action) = Purge::start(Some("tmp".to_string()), Some(ROOT.to_string()));
    assert_eq!(action, PurgeAction::Finish(PurgeOutcome::Skipped));
    assert_eq!(p.phase, PurgePhase::Finished(PurgeOutcome::Skipped));
    let (_, action) = Purge::start(None, Some(ROOT.to_string()));
    assert_eq!(action, PurgeAction::Finish(PurgeOutcome::Skipped));
}

#[test]
fn entry_read_keeps_the_entry() {
    match PurgeEvent::entry_read(entry(5)) {
        PurgeEvent::Entry(e, now) => {
            assert_eq!(e.root, id(ROOT));
            assert_eq!(e.expires_at, at(5));
            assert!(now.secs > 1_600_000_000);
        }
        other => panic!("unexpected {other:?}"),
    }
}
