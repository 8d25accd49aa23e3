//! Expiry of bin entries. For each file in the bin directory the cleanup
//! runs this machine: it is told what the outside world reports and answers
//! with the next thing to do. An expired entry deletes its subtree only when
//! the subtree is unchanged since it went to the bin; an entry whose subtree
//! was restored, reused or changed loses its expiry instead.

use vstd::prelude::*;
use crate::thread_id::ThreadId;
use crate::time::{Timestamp, later, utc_now};
use crate::trash::{StoredThread, TrashEntry, TrashMember};

verus! {

/// How the cleanup of one bin file ended.
#[derive(Clone, Copy, Debug, PartialEq, Eq, Structural)]
pub enum PurgeOutcome {
    /// The file is not a `.json` file; it was left alone.
    Skipped,
    /// The entry is not due (not yet expired, recorded for another name, or
    /// without members); the file stays.
    NotDue,
    /// Something outside failed; the file stays and a later cleanup retries.
    Deferred,
    /// The subtree changed since it was binned; the file was removed and the
    /// threads were kept as ordinary archives.
    Cancelled,
    /// The unchanged subtree was deleted and the file removed.
    Purged,
}

/// What the cleanup must do next for the current file.
#[derive(Clone, Copy, Debug, PartialEq, Eq, Structural)]
pub enum PurgeAction {
    /// Read the file and parse its entry.
    ReadEntry,
    /// List the ids of the spawn subtree rooted at the thread.
    ReadSubtree(ThreadId),
    /// Ask whether the thread is loaded.
    CheckLoaded(ThreadId),
    /// Read the thread from the thread store, archived threads included.
    ReadStored(ThreadId),
    /// Delete the subtree rooted at the thread and announce the deletions.
    DeleteSubtree(ThreadId),
    /// Remove the bin file.
    RemoveFile,
    /// Nothing more to do for this file.
    Finish(PurgeOutcome),
}

/// What the outside world reports back.
#[derive(Debug)]
pub enum PurgeEvent {
    /// The entry that the file holds, and the time at which it was read.
    Entry(TrashEntry, Timestamp),
    /// The ids of the spawn subtree.
    Subtree(Vec<ThreadId>),
    /// Whether the asked thread is loaded.
    Loaded(bool),
    /// What the thread store holds of the asked thread.
    Stored(StoredThread),
    /// The subtree was deleted.
    Deleted,
    /// The file was removed.
    Removed,
    /// The requested work failed.
    Failed,
}

/// Where the machine stands.
#[derive(Clone, Copy, Debug, PartialEq, Eq, Structural)]
pub enum PurgePhase {
    AwaitEntry,
    AwaitSubtree,
    AwaitLoaded,
    AwaitStored,
    AwaitDelete,
    AwaitRemove,
    Finished(PurgeOutcome),
}

/// The cleanup of one bin file. Besides what it needs to decide, it keeps
/// (as ghost state) what it was told: the time of reading, the subtree, and
/// in member order whether each member was loaded and what the store holds.
pub struct Purge {
    pub phase: PurgePhase,
    pub stem: Option<String>,
    pub entry: Option<TrashEntry>,
    pub next: usize,
    pub unchanged: bool,
    pub purged: bool,
    pub now: Ghost<Timestamp>,
    pub subtree: Ghost<Seq<ThreadId>>,
    pub loaded: Ghost<Seq<bool>>,
    pub stored: Ghost<Seq<StoredThread>>,
}

/// The text of an optional file stem.
pub open spec fn stem_text(stem: Option<String>) -> Option<Seq<char>> {
    match stem {
        Some(s) => Some(s@),
        None => None,
    }
}

/// The ids that a list holds, as a set.
pub open spec fn id_set(ids: Seq<ThreadId>) -> Set<ThreadId> {
    Set::new(|id: ThreadId| ids.contains(id))
}

/// The ids of the recorded members, as a set.
pub open spec fn recorded_ids(members: Seq<TrashMember>) -> Set<ThreadId> {
    Set::new(|id: ThreadId| exists|j: int| 0 <= j < members.len() && members[j].id == id)
}

/// An entry is due when its file is named after its root, it records at least
/// one member, and its expiry is not later than `now`.
pub open spec fn is_due(stem: Option<Seq<char>>, entry: TrashEntry, now: Timestamp) -> bool {
    &&& stem == Some(entry.root.text())
    &&& entry.members@.len() > 0
    &&& !later(entry.expires_at, now)
}

/// A member is unchanged when it was archived when binned, and the store
/// still holds the same archive time and update time.
pub open spec fn member_unchanged(m: TrashMember, s: StoredThread) -> bool {
    &&& m.archived_at is Some
    &&& m.archived_at == s.archived_at
    &&& m.updated_at == s.updated_at
}

/// The checks of the first `n` members pass: the live subtree holds exactly
/// the recorded members, and none of the first `n` is loaded or changed.
pub open spec fn checks_pass(
    entry: TrashEntry,
    subtree: Seq<ThreadId>,
    loaded: Seq<bool>,
    stored: Seq<StoredThread>,
    n: int,
) -> bool {
    &&& id_set(subtree) == recorded_ids(entry.members@)
    &&& forall|j: int| 0 <= j < n ==> !#[trigger] loaded[j] && member_unchanged(entry.members@[j], stored[j])
}

/// The binned subtree is unchanged: every member was checked, and the checks
/// passed.
pub open spec fn subtree_unchanged(
    entry: TrashEntry,
    subtree: Seq<ThreadId>,
    loaded: Seq<bool>,
    stored: Seq<StoredThread>,
) -> bool {
    &&& loaded.len() == entry.members@.len()
    &&& stored.len() == entry.members@.len()
    &&& checks_pass(entry, subtree, loaded, stored, entry.members@.len() as int)
}


/// A subtree is deleted only when, at the time the entry was read, the entry
/// named after its root had expired, and every recorded member was checked:
/// not loaded, archived when binned, and still held by the store with the
/// same archive time and update time, while the live subtree holds exactly
/// the recorded members.
pub proof fn law_deleted_subtree_was_unchanged(
    stem: Option<Seq<char>>,
    entry: TrashEntry,
    now: Timestamp,
    subtree: Seq<ThreadId>,
    loaded: Seq<bool>,
    stored: Seq<StoredThread>,
)
    requires
        is_due(stem, entry, now),
        subtree_unchanged(entry, subtree, loaded, stored),
    ensures
        stem == Some(entry.root.text()),
        entry.members@.len() > 0,
        entry.expires_at.secs < now.secs || (entry.expires_at.secs == now.secs && entry.expires_at.nanos <= now.nanos),
        loaded.len() == entry.members@.len(),
        stored.len() == entry.members@.len(),
        forall|j: int| 0 <= j < entry.members@.len() ==> {
            &&& !#[trigger] loaded[j]
            &&& entry.members@[j].archived_at is Some
            &&& stored[j].archived_at == entry.members@[j].archived_at
            &&& stored[j].updated_at == entry.members@[j].updated_at
        },
        forall|id: ThreadId| #[trigger] subtree.contains(id) <==> exists|j: int| 0 <= j < entry.members@.len()
            && entry.members@[j].id == id,
{
    assert forall|j: int| 0 <= j < entry.members@.len() implies {
        &&& !#[trigger] loaded[j]
        &&& entry.members@[j].archived_at is Some
        &&& stored[j].archived_at == entry.members@[j].archived_at
        &&& stored[j].updated_at == entry.members@[j].updated_at
    } by {
        assert(checks_pass(entry, subtree, loaded, stored, entry.members@.len() as int));
        assert(!loaded[j]);
        assert(member_unchanged(entry.members@[j], stored[j]));
    }
    assert forall|id: ThreadId| #[trigger] subtree.contains(id) <==> exists|j: int| 0 <= j < entry.members@.len()
        && entry.members@[j].id == id by {
        assert(id_set(subtree).contains(id) == subtree.contains(id));
        assert(recorded_ids(entry.members@).contains(id) == exists|j: int| 0 <= j < entry.members@.len()
            && entry.members@[j].id == id);
    }
}

/// The machine finished because something outside failed.
pub open spec fn deferred(r: (Purge, PurgeAction)) -> bool {
    r.0.phase == PurgePhase::Finished(PurgeOutcome::Deferred) && r.1 == PurgeAction::Finish(PurgeOutcome::Deferred)
}

/// The checks of the first `n` members depend only on what was told of them.
proof fn lemma_checks_pass_same_prefix(
    entry: TrashEntry,
    subtree: Seq<ThreadId>,
    l1: Seq<bool>,
    l2: Seq<bool>,
    s1: Seq<StoredThread>,
    s2: Seq<StoredThread>,
    n: int,
)
    requires
        forall|j: int| 0 <= j < n ==> l1[j] == l2[j] && s1[j] == s2[j],
    ensures
        checks_pass(entry, subtree, l1, s1, n) == checks_pass(entry, subtree, l2, s2, n),
{
    if checks_pass(entry, subtree, l1, s1, n) {
        assert forall|j: int| 0 <= j < n implies !#[trigger] l2[j] && member_unchanged(entry.members@[j], s2[j]) by {
            assert(!l1[j] && member_unchanged(entry.members@[j], s1[j]));
        }
    }
    if checks_pass(entry, subtree, l2, s2, n) {
        assert forall|j: int| 0 <= j < n implies !#[trigger] l1[j] && member_unchanged(entry.members@[j], s1[j]) by {
            assert(!l2[j] && member_unchanged(entry.members@[j], s2[j]));
        }
    }
}

/// Checking one more member adds exactly that member's check.
proof fn lemma_checks_pass_extend(
    entry: TrashEntry,
    subtree: Seq<ThreadId>,
    loaded: Seq<bool>,
    stored: Seq<StoredThread>,
    n: int,
    st: StoredThread,
)
    requires
        0 <= n,
        stored.len() == n,
    ensures
        checks_pass(entry, subtree, loaded, stored.push(st), n + 1) == (checks_pass(entry, subtree, loaded, stored, n)
            && !loaded[n] && member_unchanged(entry.members@[n], st)),
{
    let pushed = stored.push(st);
    assert(pushed[n] == st);
    lemma_checks_pass_same_prefix(entry, subtree, loaded, loaded, stored, pushed, n);
    if checks_pass(entry, subtree, loaded, pushed, n + 1) {
        assert(!loaded[n] && member_unchanged(entry.members@[n], pushed[n]));
    }
    if checks_pass(entry, subtree, loaded, pushed, n) && !loaded[n] && member_unchanged(entry.members@[n], st) {
        assert forall|j: int| 0 <= j < n + 1 implies !#[trigger] loaded[j] && member_unchanged(entry.members@[j], pushed[j]) by {
            if j < n {
                assert(!loaded[j] && member_unchanged(entry.members@[j], pushed[j]));
            }
        }
    }
}

/// Whether the list `ids` holds `id`.
fn contains_id(ids: &Vec<ThreadId>, id: ThreadId) -> (r: bool)
    ensures
        r == ids@.contains(id),
{
    let mut i: usize = 0;
    while i < ids.len()
        invariant
            i <= ids@.len(),
            forall|j: int| 0 <= j < i ==> ids@[j] != id,
        decreases ids@.len() - i,
    {
        if ids[i] == id {
            return true;
        }
        i = i + 1;
    }
    false
}

/// Whether some member of `members` has the id `id`.
fn records_id(members: &Vec<TrashMember>, id: ThreadId) -> (r: bool)
    ensures
        r == (exists|j: int| 0 <= j < members@.len() && members@[j].id == id),
{
    let mut i: usize = 0;
    while i < members.len()
        invariant
            i <= members@.len(),
            forall|j: int| 0 <= j < i ==> members@[j].id != id,
        decreases members@.len() - i,
    {
        if members[i].id == id {
            return true;
        }
        i = i + 1;
    }
    false
}

/// Whether the live subtree `ids` holds exactly the recorded members' ids.
fn same_ids(ids: &Vec<ThreadId>, members: &Vec<TrashMember>) -> (r: bool)
    ensures
        r == (id_set(ids@) == recorded_ids(members@)),
{
    let mut i: usize = 0;
    while i < ids.len()
        invariant
            i <= ids@.len(),
            forall|k: int| 0 <= k < i ==> #[trigger] recorded_ids(members@).contains(ids@[k]),
        decreases ids@.len() - i,
    {
        if !records_id(members, ids[i]) {
            assert(!recorded_ids(members@).contains(ids@[i as int]));
            assert(id_set(ids@).contains(ids@[i as int]));
            return false;
        }
        i = i + 1;
    }
    let mut j: usize = 0;
    while j < members.len()
        invariant
            j <= members@.len(),
            forall|k: int| 0 <= k < ids@.len() ==> #[trigger] recorded_ids(members@).contains(ids@[k]),
            forall|k: int| 0 <= k < j ==> #[trigger] id_set(ids@).contains(members@[k].id),
        decreases members@.len() - j,
    {
        if !contains_id(ids, members[j].id) {
            assert(recorded_ids(members@).contains(members@[j as int].id));
            assert(!id_set(ids@).contains(members@[j as int].id));
            return false;
        }
        j = j + 1;
    }
    assert(id_set(ids@) =~= recorded_ids(members@)) by {
        assert forall|id: ThreadId| id_set(ids@).contains(id) implies recorded_ids(members@).contains(id) by {
            let k = choose|k: int| 0 <= k < ids@.len() && ids@[k] == id;
            assert(recorded_ids(members@).contains(ids@[k]));
        }
        assert forall|id: ThreadId| recorded_ids(members@).contains(id) implies id_set(ids@).contains(id) by {
            let k = choose|k: int| 0 <= k < members@.len() && members@[k].id == id;
            assert(id_set(ids@).contains(members@[k].id));
        }
    }
    true
}

impl PurgeEvent {
    /// The event that reports the entry read from a file, stamped with the
    /// current time from the system clock; a failure when the clock cannot be
    /// read as a UTC time.
    pub fn entry_read(entry: TrashEntry) -> (ev: PurgeEvent)
        ensures
            ev is Failed || (ev matches PurgeEvent::Entry(e, now) && e == entry
                && 0 <= now.secs <= crate::time::MAX_UTC_SECS && now.nanos < 1_000_000_000),
    {
        match utc_now() {
            Some(now) => PurgeEvent::Entry(entry, now),
            None => PurgeEvent::Failed,
        }
    }
}

impl Purge {
    /// Starts the cleanup of the bin file with the given extension and stem
    /// (each `None` when absent or not text): only `.json` files are read.
    pub fn start(extension: Option<String>, stem: Option<String>) -> (r: (Purge, PurgeAction))
        ensures
            r.0.wf(),
            r.0.stem == stem,
            (extension matches Some(x) && x@ == seq!['j', 's', 'o', 'n']) ==> r.0.phase == PurgePhase::AwaitEntry && r.1 == PurgeAction::ReadEntry,
            !(extension matches Some(x) && x@ == seq!['j', 's', 'o', 'n']) ==> r.0.phase == PurgePhase::Finished(PurgeOutcome::Skipped)
                && r.1 == PurgeAction::Finish(PurgeOutcome::Skipped),
    {
        proof { reveal_strlit("json"); }
        let json = String::from_str("json");
        assert(json@ =~= seq!['j', 's', 'o', 'n']);
        let is_json = match &extension {
            Some(x) => *x == json,
            None => false,
        };
        let phase = if is_json { PurgePhase::AwaitEntry } else { PurgePhase::Finished(PurgeOutcome::Skipped) };
        let action = if is_json { PurgeAction::ReadEntry } else { PurgeAction::Finish(PurgeOutcome::Skipped) };
        let p = Purge {
            phase,
            stem,
            entry: None,
            next: 0,
            unchanged: false,
            purged: false,
            now: Ghost(Timestamp { secs: 0, nanos: 0 }),
            subtree: Ghost(Seq::empty()),
            loaded: Ghost(Seq::empty()),
            stored: Ghost(Seq::empty()),
        };
        (p, action)
    }

    /// Takes in what the outside world reports and gives the next state and
    /// the next thing to do.
    pub fn step(self, event: PurgeEvent) -> (r: (Purge, PurgeAction))
        requires
            self.wf(),
        ensures
            r.0.wf(),
            r.0.stem == self.stem,
            // The subtree is deleted only when the entry is due and every
            // recorded member was checked, unloaded and unchanged.
            r.1 matches PurgeAction::DeleteSubtree(id) ==> r.0.entry matches Some(e) && id == e.root
                && is_due(stem_text(r.0.stem), e, r.0.now@)
                && subtree_unchanged(e, r.0.subtree@, r.0.loaded@, r.0.stored@),
            // In particular, no member is loaded or changed: each keeps the
            // archive time and update time that the entry recorded.
            r.1 matches PurgeAction::DeleteSubtree(_) ==> r.0.entry matches Some(e)
                && r.0.loaded@.len() == e.members@.len()
                && r.0.stored@.len() == e.members@.len()
                && forall|j: int| 0 <= j < e.members@.len() ==> {
                    &&& !#[trigger] r.0.loaded@[j]
                    &&& e.members@[j].archived_at is Some
                    &&& r.0.stored@[j].archived_at == e.members@[j].archived_at
                    &&& r.0.stored@[j].updated_at == e.members@[j].updated_at
                },
            // The file is removed only for a due entry, after its unchanged
            // subtree was deleted, or when the subtree was found changed.
            r.1 == PurgeAction::RemoveFile ==> r.0.phase == PurgePhase::AwaitRemove && (r.0.entry matches Some(e)
                && is_due(stem_text(r.0.stem), e, r.0.now@)
                && (r.0.purged <==> subtree_unchanged(e, r.0.subtree@, r.0.loaded@, r.0.stored@))),
            match self.phase {
                PurgePhase::AwaitEntry => match event {
                    PurgeEvent::Entry(e, now) => if is_due(stem_text(self.stem), e, now) {
                        &&& r.0.phase == PurgePhase::AwaitSubtree
                        &&& r.0.entry == Some(e)
                        &&& r.0.now@ == now
                        &&& r.1 == PurgeAction::ReadSubtree(e.root)
                    } else {
                        &&& r.0.phase == PurgePhase::Finished(PurgeOutcome::NotDue)
                        &&& r.1 == PurgeAction::Finish(PurgeOutcome::NotDue)
                    },
                    _ => deferred(r),
                },
                PurgePhase::AwaitSubtree => match event {
                    PurgeEvent::Subtree(ids) => {
                        &&& r.0.phase == PurgePhase::AwaitLoaded
                        &&& r.0.entry == self.entry
                        &&& r.0.now == self.now
                        &&& r.0.subtree@ == ids@
                        &&& r.0.next == 0
                        &&& r.1 == PurgeAction::CheckLoaded(self.entry.unwrap().members@[0].id)
                    },
                    _ => deferred(r),
                },
                PurgePhase::AwaitLoaded => match event {
                    PurgeEvent::Loaded(is_loaded) => {
                        &&& r.0.entry == self.entry
                        &&& r.0.now == self.now
                        &&& r.0.subtree == self.subtree
                        &&& r.0.loaded@ == self.loaded@.push(is_loaded)
                        &&& r.0.stored == self.stored
                        &&& if is_loaded {
                            &&& r.0.phase == PurgePhase::AwaitRemove
                            &&& !r.0.purged
                            &&& r.1 == PurgeAction::RemoveFile
                        } else {
                            &&& r.0.phase == PurgePhase::AwaitStored
                            &&& r.0.next == self.next
                            &&& r.1 == PurgeAction::ReadStored(self.entry.unwrap().members@[self.next as int].id)
                        }
                    },
                    _ => deferred(r),
                },
                PurgePhase::AwaitStored => match event {
                    PurgeEvent::Stored(st) => {
                        let e = self.entry.unwrap();
                        let n = self.next as int;
                        &&& r.0.entry == self.entry
                        &&& r.0.now == self.now
                        &&& r.0.subtree == self.subtree
                        &&& r.0.loaded == self.loaded
                        &&& r.0.stored@ == self.stored@.push(st)
                        &&& if n + 1 < e.members@.len() {
                            &&& r.0.phase == PurgePhase::AwaitLoaded
                            &&& r.0.next == n + 1
                            &&& r.1 == PurgeAction::CheckLoaded(e.members@[n + 1].id)
                        } else if self.unchanged && member_unchanged(e.members@[n], st) {
                            &&& r.0.phase == PurgePhase::AwaitDelete
                            &&& r.1 == PurgeAction::DeleteSubtree(e.root)
                        } else {
                            &&& r.0.phase == PurgePhase::AwaitRemove
                            &&& !r.0.purged
                            &&& r.1 == PurgeAction::RemoveFile
                        }
                    },
                    _ => deferred(r),
                },
                PurgePhase::AwaitDelete => match event {
                    PurgeEvent::Deleted => {
                        &&& r.0.phase == PurgePhase::AwaitRemove
                        &&& r.0.purged
                        &&& r.1 == PurgeAction::RemoveFile
                    },
                    _ => deferred(r),
                },
                PurgePhase::AwaitRemove => match event {
                    PurgeEvent::Removed => {
                        let outcome = if self.purged { PurgeOutcome::Purged } else { PurgeOutcome::Cancelled };
                        &&& r.0.phase == PurgePhase::Finished(outcome)
                        &&& r.1 == PurgeAction::Finish(outcome)
                    },
                    _ => deferred(r),
                },
                PurgePhase::Finished(outcome) => {
                    &&& r.0.phase == PurgePhase::Finished(outcome)
                    &&& r.1 == PurgeAction::Finish(outcome)
                },
            },
    {
        let Purge { phase, stem, entry, next, unchanged, purged, now, subtree, loaded, stored } = self;
        let deferred_outcome = PurgeOutcome::Deferred;
        let r: (Purge, PurgeAction) = match phase {
            PurgePhase::AwaitEntry => {
                match event {
                    PurgeEvent::Entry(e, at) => {
                        let root_text = e.root.to_string();
                        let named_after_root = match &stem {
                            Some(s) => *s == root_text,
                            None => false,
                        };
                        let due = named_after_root && e.members.len() > 0 && !e.expires_at.is_after(&at);
                        if due {
                            let root = e.root;
                            let p = Purge {
                                phase: PurgePhase::AwaitSubtree,
                                stem,
                                entry: Some(e),
                                next,
                                unchanged,
                                purged,
                                now: Ghost(at),
                                subtree,
                                loaded,
                                stored,
                            };
                            (p, PurgeAction::ReadSubtree(root))
                        } else {
                            let outcome = PurgeOutcome::NotDue;
                            let p = Purge { phase: PurgePhase::Finished(outcome), stem, entry: None, next, unchanged, purged, now, subtree, loaded, stored };
                            (p, PurgeAction::Finish(outcome))
                        }
                    },
                    _ => {
                        let p = Purge { phase: PurgePhase::Finished(deferred_outcome), stem, entry, next, unchanged, purged, now, subtree, loaded, stored };
                        (p, PurgeAction::Finish(deferred_outcome))
                    },
                }
            },
            PurgePhase::AwaitSubtree => {
                match event {
                    PurgeEvent::Subtree(ids) => {
                        let e = entry.unwrap();
                        let matches = same_ids(&ids, &e.members);
                        let first = e.members[0].id;
                        let p = Purge {
                            phase: PurgePhase::AwaitLoaded,
                            stem,
                            entry: Some(e),
                            next: 0,
                            unchanged: matches,
                            purged,
                            now,
                            subtree: Ghost(ids@),
                            loaded,
                            stored,
                        };
                        (p, PurgeAction::CheckLoaded(first))
                    },
                    _ => {
                        let p = Purge { phase: PurgePhase::Finished(deferred_outcome), stem, entry, next, unchanged, purged, now, subtree, loaded, stored };
                        (p, PurgeAction::Finish(deferred_outcome))
                    },
                }
            },
            PurgePhase::AwaitLoaded => {
                match event {
                    PurgeEvent::Loaded(is_loaded) => {
                        let e = entry.unwrap();
                        let ghost new_loaded = loaded@.push(is_loaded);
                        if is_loaded {
                            proof {
                                assert(new_loaded[next as int]);
                                assert(!subtree_unchanged(e, subtree@, new_loaded, stored@));
                            }
                            let p = Purge {
                                phase: PurgePhase::AwaitRemove,
                                stem,
                                entry: Some(e),
                                next,
                                unchanged: false,
                                purged: false,
                                now,
                                subtree,
                                loaded: Ghost(new_loaded),
                                stored,
                            };
                            (p, PurgeAction::RemoveFile)
                        } else {
                            let id = e.members[next].id;
                            proof {
                                lemma_checks_pass_same_prefix(e, subtree@, new_loaded, loaded@, stored@, stored@, next as int);
                            }
                            let p = Purge {
                                phase: PurgePhase::AwaitStored,
                                stem,
                                entry: Some(e),
                                next,
                                unchanged,
                                purged,
                                now,
                                subtree,
                                loaded: Ghost(new_loaded),
                                stored,
                            };
                            (p, PurgeAction::ReadStored(id))
                        }
                    },
                    _ => {
                        let p = Purge { phase: PurgePhase::Finished(deferred_outcome), stem, entry, next, unchanged, purged, now, subtree, loaded, stored };
                        (p, PurgeAction::Finish(deferred_outcome))
                    },
                }
            },
            PurgePhase::AwaitStored => {
                match event {
                    PurgeEvent::Stored(st) => {
                        let e = entry.unwrap();
                        assert(next < e.members@.len());
                        let m = e.members[next];
                        let same = m.archived_at.is_some() && m.archived_at == st.archived_at && m.updated_at == st.updated_at;
                        let still = unchanged && same;
                        let ghost new_stored = stored@.push(st);
                        proof {
                            assert(same == member_unchanged(e.members@[next as int], st));
                            lemma_checks_pass_extend(e, subtree@, loaded@, stored@, next as int, st);
                        }
                        let count = e.members.len();
                        if next + 1 < count {
                            let id = e.members[next + 1].id;
                            let p = Purge {
                                phase: PurgePhase::AwaitLoaded,
                                stem,
                                entry: Some(e),
                                next: next + 1,
                                unchanged: still,
                                purged,
                                now,
                                subtree,
                                loaded,
                                stored: Ghost(new_stored),
                            };
                            (p, PurgeAction::CheckLoaded(id))
                        } else if still {
                            let root = e.root;
                            let p = Purge {
                                phase: PurgePhase::AwaitDelete,
                                stem,
                                entry: Some(e),
                                next,
                                unchanged: still,
                                purged,
                                now,
                                subtree,
                                loaded,
                                stored: Ghost(new_stored),
                            };
                            (p, PurgeAction::DeleteSubtree(root))
                        } else {
                            let p = Purge {
                                phase: PurgePhase::AwaitRemove,
                                stem,
                                entry: Some(e),
                                next,
                                unchanged: false,
                                purged: false,
                                now,
                                subtree,
                                loaded,
                                stored: Ghost(new_stored),
                            };
                            (p, PurgeAction::RemoveFile)
                        }
                    },
                    _ => {
                        let p = Purge { phase: PurgePhase::Finished(deferred_outcome), stem, entry, next, unchanged, purged, now, subtree, loaded, stored };
                        (p, PurgeAction::Finish(deferred_outcome))
                    },
                }
            },
            PurgePhase::AwaitDelete => {
                match event {
                    PurgeEvent::Deleted => {
                        let p = Purge { phase: PurgePhase::AwaitRemove, stem, entry, next, unchanged, purged: true, now, subtree, loaded, stored };
                        (p, PurgeAction::RemoveFile)
                    },
                    _ => {
                        let p = Purge { phase: PurgePhase::Finished(deferred_outcome), stem, entry, next, unchanged, purged, now, subtree, loaded, stored };
                        (p, PurgeAction::Finish(deferred_outcome))
                    },
                }
            },
            PurgePhase::AwaitRemove => {
                match event {
                    PurgeEvent::Removed => {
                        let outcome = if purged { PurgeOutcome::Purged } else { PurgeOutcome::Cancelled };
                        let p = Purge { phase: PurgePhase::Finished(outcome), stem, entry, next, unchanged, purged, now, subtree, loaded, stored };
                        (p, PurgeAction::Finish(outcome))
                    },
                    _ => {
                        let p = Purge { phase: PurgePhase::Finished(deferred_outcome), stem, entry, next, unchanged, purged, now, subtree, loaded, stored };
                        (p, PurgeAction::Finish(deferred_outcome))
                    },
                }
            },
            PurgePhase::Finished(outcome) => {
                let p = Purge { phase: PurgePhase::Finished(outcome), stem, entry, next, unchanged, purged, now, subtree, loaded, stored };
                (p, PurgeAction::Finish(outcome))
            },
        };
        proof {
            if r.1 is DeleteSubtree {
                let e = r.0.entry.unwrap();
                law_deleted_subtree_was_unchanged(stem_text(r.0.stem), e, r.0.now@, r.0.subtree@, r.0.loaded@, r.0.stored@);
            }
        }
        r
    }

    /// Due, and what was told so far agrees with the phase.
    pub open spec fn wf(self) -> bool {
        match self.phase {
            PurgePhase::AwaitEntry => self.entry is None && self.loaded@.len() == 0 && self.stored@.len() == 0,
            PurgePhase::AwaitSubtree => self.entry matches Some(e) && is_due(stem_text(self.stem), e, self.now@)
                && self.loaded@.len() == 0 && self.stored@.len() == 0,
            PurgePhase::AwaitLoaded => self.entry matches Some(e) && is_due(stem_text(self.stem), e, self.now@)
                && self.next < e.members@.len()
                && self.loaded@.len() == self.next
                && self.stored@.len() == self.next
                && self.unchanged == checks_pass(e, self.subtree@, self.loaded@, self.stored@, self.next as int),
            PurgePhase::AwaitStored => self.entry matches Some(e) && is_due(stem_text(self.stem), e, self.now@)
                && self.next < e.members@.len()
                && self.loaded@.len() == self.next + 1
                && !self.loaded@[self.next as int]
                && self.stored@.len() == self.next
                && self.unchanged == checks_pass(e, self.subtree@, self.loaded@, self.stored@, self.next as int),
            PurgePhase::AwaitDelete => self.entry matches Some(e) && is_due(stem_text(self.stem), e, self.now@)
                && subtree_unchanged(e, self.subtree@, self.loaded@, self.stored@),
            PurgePhase::AwaitRemove => self.entry matches Some(e) && is_due(stem_text(self.stem), e, self.now@)
                && (self.purged <==> subtree_unchanged(e, self.subtree@, self.loaded@, self.stored@)),
            PurgePhase::Finished(_) => true,
        }
    }
}

} // verus!
