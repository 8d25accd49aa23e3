//! What the bin records when an agent and its children are moved to it, and
//! how an entry is restored.

use vstd::prelude::*;
use crate::rpc::{RpcError, invalid_request};
use crate::thread_id::{ThreadId, bin_file_text, bin_file_name, uuid_parse};
use crate::time::{Timestamp, MAX_UTC_SECS, RETENTION_SECS, retention_end, utc_now};

verus! {

/// What the thread store reports of a thread: when it was archived, if it
/// is, and when it was last updated.
#[derive(Clone, Copy, Debug, PartialEq, Eq, Structural)]
pub struct StoredThread {
    pub archived_at: Option<Timestamp>,
    pub updated_at: Timestamp,
}

/// One thread of a binned subtree, as it was when it went to the bin.
#[derive(Clone, Copy, Debug, PartialEq, Eq, Structural)]
pub struct TrashMember {
    pub id: ThreadId,
    pub archived_at: Option<Timestamp>,
    pub updated_at: Timestamp,
}

/// A bin entry: the subtree root, when the entry expires, the recorded
/// members, and the ids that archiving reported (restored again on restore).
#[derive(Debug)]
pub struct TrashEntry {
    pub root: ThreadId,
    pub expires_at: Timestamp,
    pub members: Vec<TrashMember>,
    pub restore_ids: Vec<String>,
}

impl TrashMember {
    /// The record of thread `id` as the thread store reports it.
    pub fn recorded(id: ThreadId, stored: StoredThread) -> (m: TrashMember)
        ensures
            m.id == id,
            m.archived_at == stored.archived_at,
            m.updated_at == stored.updated_at,
    {
        TrashMember { id, archived_at: stored.archived_at, updated_at: stored.updated_at }
    }
}

impl TrashEntry {
    /// The entry made at time `now`: it expires the retention period later.
    pub fn new(root: ThreadId, now: Timestamp, members: Vec<TrashMember>, restore_ids: Vec<String>) -> (e: TrashEntry)
        requires
            now.secs <= MAX_UTC_SECS - RETENTION_SECS,
        ensures
            e.root == root,
            e.expires_at == retention_end(now),
            e.members@ == members@,
            e.restore_ids@ == restore_ids@,
    {
        TrashEntry { root, expires_at: now.plus_retention(), members, restore_ids }
    }

    /// The entry made at time `now`, or `None` when its expiry would lie
    /// beyond the last moment that chrono can represent.
    pub fn at(root: ThreadId, now: Timestamp, members: Vec<TrashMember>, restore_ids: Vec<String>) -> (e: Option<TrashEntry>)
        ensures
            e is None <==> now.secs > MAX_UTC_SECS - RETENTION_SECS,
            e matches Some(e) ==> {
                &&& e.root == root
                &&& e.expires_at == retention_end(now)
                &&& e.members@ == members@
                &&& e.restore_ids@ == restore_ids@
            },
    {
        if now.secs <= MAX_UTC_SECS - RETENTION_SECS {
            Some(TrashEntry::new(root, now, members, restore_ids))
        } else {
            None
        }
    }

    /// The entry made now, by the system clock: `TrashEntry::at` the time
    /// that the clock gives. `None` when the clock cannot be read as a UTC
    /// time or the expiry would lie beyond chrono's range.
    pub fn new_now(root: ThreadId, members: Vec<TrashMember>, restore_ids: Vec<String>) -> (e: Option<TrashEntry>)
        ensures
            e matches Some(e) ==> exists|now: Timestamp| {
                &&& 0 <= now.secs <= MAX_UTC_SECS - RETENTION_SECS
                &&& now.nanos < 1_000_000_000
                &&& e.root == root
                &&& e.expires_at == retention_end(now)
                &&& e.members@ == members@
                &&& e.restore_ids@ == restore_ids@
            },
    {
        match utc_now() {
            Some(now) => {
                let e = TrashEntry::at(root, now, members, restore_ids);
                assert(e matches Some(x) ==> x.expires_at == retention_end(now));
                e
            },
            None => None,
        }
    }
}

/// The name of the bin file of the thread whose id is `thread_id`, if the
/// text is a thread id.
pub fn bin_file_for(thread_id: &str) -> (name: Option<String>)
    ensures
        match uuid_parse(thread_id@) {
            Ok(bits) => name matches Some(n) && n@ == bin_file_text(ThreadId { uuid: bits }),
            Err(_) => name is None,
        },
{
    match ThreadId::from_string(thread_id) {
        Ok(id) => Some(bin_file_name(id)),
        Err(_) => None,
    }
}

/// The thread a trash or restore request names: its id, or an invalid
/// request error carrying the parser's message.
pub fn parse_thread_root(thread_id: &str) -> (r: Result<ThreadId, RpcError>)
    ensures
        match uuid_parse(thread_id@) {
            Ok(bits) => r matches Ok(id) && id.uuid == bits,
            Err(message) => r matches Err(e) && e.code == crate::rpc::INVALID_REQUEST_ERROR_CODE && e.message@ == message,
        },
{
    match ThreadId::from_string(thread_id) {
        Ok(id) => Ok(id),
        Err(message) => Err(invalid_request(message)),
    }
}

/// The order in which a restore unarchives threads: every id that archiving
/// reported, except the requested one, in order, and the requested one last.
pub open spec fn restore_order(ids: Seq<Seq<char>>, requested: Seq<char>) -> Seq<Seq<char>> {
    ids.filter(other_than(requested)).push(requested)
}

/// Whether an id is another than `requested`.
pub open spec fn other_than(requested: Seq<char>) -> spec_fn(Seq<char>) -> bool {
    |id: Seq<char>| id != requested
}

/// Which threads are archived after every thread of `subtree` is archived,
/// starting from `state` (each thread's id and whether it is archived).
pub open spec fn archive_all(state: Map<Seq<char>, bool>, subtree: Set<Seq<char>>) -> Map<Seq<char>, bool> {
    Map::new(|id: Seq<char>| state.contains_key(id), |id: Seq<char>| subtree.contains(id) || state[id])
}

/// Which threads are archived after the threads `ids` are unarchived, one
/// after another, starting from `state`.
pub open spec fn unarchive_each(state: Map<Seq<char>, bool>, ids: Seq<Seq<char>>) -> Map<Seq<char>, bool>
    decreases ids.len(),
{
    if ids.len() == 0 {
        state
    } else {
        unarchive_each(state, ids.drop_last()).insert(ids.last(), false)
    }
}

/// After unarchiving `ids`, a thread is known exactly when it was known or
/// is among them, and is archived exactly when it was and is not among them.
proof fn lemma_unarchive_each(state: Map<Seq<char>, bool>, ids: Seq<Seq<char>>, id: Seq<char>)
    ensures
        unarchive_each(state, ids).contains_key(id) == (state.contains_key(id) || ids.contains(id)),
        unarchive_each(state, ids).contains_key(id) ==> unarchive_each(state, ids)[id] == (!ids.contains(id)
            && state[id]),
    decreases ids.len(),
{
    if ids.len() > 0 {
        let rest = ids.drop_last();
        lemma_unarchive_each(state, rest, id);
        if ids.contains(id) && ids.last() != id {
            let i = choose|i: int| 0 <= i < ids.len() && ids[i] == id;
            assert(rest[i] == id);
        }
        if rest.contains(id) {
            let i = choose|i: int| 0 <= i < rest.len() && rest[i] == id;
            assert(ids[i] == id);
        }
        if ids.last() == id {
            assert(ids[ids.len() - 1] == id);
        }
    }
}

/// A restore undoes moving a subtree to the bin: when archiving the subtree
/// reported exactly the threads that it newly archived, unarchiving them in
/// restore order, the requested thread last, leaves every thread archived
/// exactly as it was before. (A requested thread that was archived already
/// before it went to the bin comes back unarchived.)
pub proof fn law_restore_undoes_trash(
    before: Map<Seq<char>, bool>,
    subtree: Set<Seq<char>>,
    reported: Seq<Seq<char>>,
    requested: Seq<char>,
)
    requires
        subtree.subset_of(before.dom()),
        forall|id: Seq<char>| reported.contains(id) <==> (subtree.contains(id) && !before[id]),
        subtree.contains(requested),
        !before[requested],
    ensures
        unarchive_each(archive_all(before, subtree), restore_order(reported, requested)) == before,
{
    let plan = restore_order(reported, requested);
    let archived = archive_all(before, subtree);
    let after = unarchive_each(archived, plan);
    law_restore_answers_the_request(reported, requested);
    assert forall|id: Seq<char>| #[trigger] after.contains_key(id) == before.contains_key(id) by {
        lemma_unarchive_each(archived, plan, id);
    }
    assert forall|id: Seq<char>| after.contains_key(id) implies #[trigger] after[id] == before[id] by {
        lemma_unarchive_each(archived, plan, id);
    }
    assert(after =~= before);
}

/// A restore unarchives the requested thread last, and only then: before it
/// come exactly the reported ids other than the requested one, in the order
/// in which they were reported, so the restore answers with the requested
/// thread.
pub proof fn law_restore_answers_the_request(ids: Seq<Seq<char>>, requested: Seq<char>)
    ensures
        restore_order(ids, requested).len() >= 1,
        restore_order(ids, requested).last() == requested,
        forall|i: int| 0 <= i < restore_order(ids, requested).len() - 1 ==> restore_order(ids, requested)[i] != requested,
        restore_order(ids, requested).drop_last() == ids.filter(|id: Seq<char>| id != requested),
        forall|id: Seq<char>| #[trigger] restore_order(ids, requested).contains(id) <==> (ids.contains(id) || id == requested),
{
    let pred = other_than(requested);
    let kept = ids.filter(pred);
    let plan = restore_order(ids, requested);
    assert(pred =~= (|id: Seq<char>| id != requested));
    assert(plan.drop_last() =~= kept);
    ids.filter_lemma(pred);
    assert forall|i: int| 0 <= i < plan.len() - 1 implies plan[i] != requested by {
        assert(plan[i] == kept[i]);
        assert(pred(kept[i]));
    }
    assert forall|id: Seq<char>| #[trigger] plan.contains(id) <==> (ids.contains(id) || id == requested) by {
        if plan.contains(id) && id != requested {
            let i = choose|i: int| 0 <= i < plan.len() && plan[i] == id;
            assert(i < kept.len());
            assert(kept[i] == id);
            assert(kept.contains(id));
            ids.lemma_filter_contains_rev(pred, id);
        }
        if ids.contains(id) && id != requested {
            let i = choose|i: int| 0 <= i < ids.len() && ids[i] == id;
            ids.lemma_filter_contains(pred, i);
            let j = choose|j: int| 0 <= j < kept.len() && kept[j] == id;
            assert(plan[j] == id);
        }
        if id == requested {
            assert(plan[plan.len() - 1] == id);
        }
    }
}

/// The message of the error that refuses to restore an entry recorded for
/// another thread.
pub open spec fn mismatch_message() -> Seq<char> {
    seq!['b', 'i', 'n', ' ', 'e', 'n', 't', 'r', 'y', ' ', 'd', 'o', 'e', 's', ' ', 'n', 'o', 't', ' ',
         'm', 'a', 't', 'c', 'h', ' ', 't', 'h', 'r', 'e', 'a', 'd']
}

/// The views of a sequence of strings.
pub open spec fn texts(v: Seq<String>) -> Seq<Seq<char>> {
    v.map_values(|s: String| s@)
}

/// Decides a restore of the bin entry `entry`, read from the file of `root`,
/// requested with the text `requested`: the ids to unarchive, in order, or
/// the error when the entry was recorded for another thread.
pub fn restore_plan(entry: &TrashEntry, root: ThreadId, requested: &str) -> (r: Result<Vec<String>, RpcError>)
    ensures
        r is Err <==> entry.root != root,
        r matches Err(e) ==> e.code == crate::rpc::INVALID_REQUEST_ERROR_CODE && e.message@ == mismatch_message(),
        r matches Ok(plan) ==> texts(plan@) == restore_order(texts(entry.restore_ids@), requested@),
        r matches Ok(plan) ==> {
            &&& plan@.len() >= 1
            &&& plan@.last()@ == requested@
            &&& forall|i: int| 0 <= i < plan@.len() - 1 ==> plan@[i]@ != requested@
            &&& texts(plan@).drop_last() == texts(entry.restore_ids@).filter(|id: Seq<char>| id != requested@)
        },
{
    if entry.root != root {
        proof { reveal_strlit("bin entry does not match thread"); }
        let message = String::from_str("bin entry does not match thread");
        assert(message@ =~= mismatch_message());
        return Err(invalid_request(message));
    }
    let ghost ids = texts(entry.restore_ids@);
    let ghost pred = other_than(requested@);
    let requested_text = String::from_str(requested);
    let mut plan: Vec<String> = Vec::new();
    let mut i: usize = 0;
    while i < entry.restore_ids.len()
        invariant
            i <= entry.restore_ids@.len(),
            ids == texts(entry.restore_ids@),
            pred == other_than(requested@),
            requested_text@ == requested@,
            texts(plan@) == ids.take(i as int).filter(pred),
        decreases entry.restore_ids@.len() - i,
    {
        let id = &entry.restore_ids[i];
        proof {
            assert(ids.take(i + 1).drop_last() =~= ids.take(i as int));
            assert(ids.take(i + 1).last() == id@);
            reveal_with_fuel(Seq::<_>::filter, 1);
        }
        if *id != requested_text {
            plan.push(id.clone());
            assert(texts(plan@) =~= ids.take(i as int).filter(pred).push(id@));
        } else {
            assert(texts(plan@) =~= ids.take(i + 1).filter(pred));
        }
        i = i + 1;
    }
    assert(ids.take(i as int) =~= ids);
    plan.push(requested_text);
    assert(texts(plan@) =~= restore_order(ids, requested@));
    proof {
        law_restore_answers_the_request(ids, requested@);
        assert(texts(plan@)[plan@.len() - 1] == plan@.last()@);
        assert forall|i: int| 0 <= i < plan@.len() - 1 implies plan@[i]@ != requested@ by {
            assert(texts(plan@)[i] == plan@[i]@);
        }
    }
    Ok(plan)
}

} // verus!
