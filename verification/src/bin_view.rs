//! What the terminal shows of the bin: the restore picker, its messages,
//! and the paging through the server's list of binned threads.

use vstd::prelude::*;
use crate::thread_id::{ThreadId, uuid_parse};

verus! {

/// Rows of binned threads asked for per page.
pub const TRASH_PAGE_LIMIT: u32 = 100;

/// A binned thread as the server lists it.
#[derive(Debug)]
pub struct BinThread {
    pub id: String,
    pub name: Option<String>,
    pub preview: String,
    pub cwd: String,
}

/// One entry of the restore picker: its name, its description, and the
/// thread that selecting it restores (none for a message entry).
#[derive(Debug)]
pub struct BinItem {
    pub name: String,
    pub description: Option<String>,
    pub restore: Option<ThreadId>,
}

/// The text of an optional string.
pub open spec fn opt_view(o: Option<String>) -> Option<Seq<char>> {
    match o {
        Some(s) => Some(s@),
        None => None,
    }
}

/// What a picker entry shows and does.
pub open spec fn item_view(item: BinItem) -> (Seq<char>, Option<Seq<char>>, Option<ThreadId>) {
    (item.name@, opt_view(item.description), item.restore)
}

/// The picker entry of a listed thread, when its id is a thread id: named by
/// its name, or else its preview, described by its working directory, and
/// restoring it when selected.
pub open spec fn thread_entry(t: BinThread) -> Option<(Seq<char>, Option<Seq<char>>, Option<ThreadId>)> {
    match uuid_parse(t.id@) {
        Ok(bits) => Some((
            match t.name {
                Some(n) => n@,
                None => t.preview@,
            },
            Some(t.cwd@),
            Some(ThreadId { uuid: bits }),
        )),
        Err(_) => None,
    }
}

/// The picker entries of the listed threads, in order, skipping threads
/// whose id is not a thread id.
pub open spec fn picker_entries(threads: Seq<BinThread>) -> Seq<(Seq<char>, Option<Seq<char>>, Option<ThreadId>)>
    decreases threads.len(),
{
    if threads.len() == 0 {
        Seq::empty()
    } else {
        picker_entries(threads.drop_last()) + match thread_entry(threads.last()) {
            Some(e) => seq![e],
            None => Seq::empty(),
        }
    }
}

/// The picker entries of the binned threads.
pub fn bin_items(threads: &Vec<BinThread>) -> (items: Vec<BinItem>)
    ensures
        items@.map_values(|i: BinItem| item_view(i)) == picker_entries(threads@),
{
    let mut items: Vec<BinItem> = Vec::new();
    let mut k: usize = 0;
    while k < threads.len()
        invariant
            k <= threads@.len(),
            items@.map_values(|i: BinItem| item_view(i)) == picker_entries(threads@.take(k as int)),
        decreases threads@.len() - k,
    {
        let t = &threads[k];
        assert(threads@.take(k + 1).drop_last() =~= threads@.take(k as int));
        assert(threads@.take(k + 1).last() == *t);
        let ghost before = items@;
        match ThreadId::from_string(t.id.as_str()) {
            Ok(id) => {
                let name = match &t.name {
                    Some(n) => n.clone(),
                    None => t.preview.clone(),
                };
                let item = BinItem { name, description: Some(t.cwd.clone()), restore: Some(id) };
                items.push(item);
                assert(items@.map_values(|i: BinItem| item_view(i)) =~= before.map_values(|i: BinItem| item_view(i)).push(item_view(item)));
            },
            Err(_) => {},
        }
        k = k + 1;
    }
    assert(threads@.take(k as int) =~= threads@);
    items
}

/// The message that begins the picker entry shown when the bin cannot be
/// listed.
pub open spec fn open_failure_prefix() -> Seq<char> {
    seq!['C', 'o', 'u', 'l', 'd', ' ', 'n', 'o', 't', ' ', 'o', 'p', 'e', 'n', ' ', 'b', 'i', 'n', ':', ' ']
}

/// The message that begins the error shown when a restore fails.
pub open spec fn restore_failure_prefix() -> Seq<char> {
    seq!['C', 'o', 'u', 'l', 'd', ' ', 'n', 'o', 't', ' ', 'r', 'e', 's', 't', 'o', 'r', 'e', ' ', 't', 'a', 's', 'k', ':', ' ']
}

/// The picker's single entry when the bin cannot be listed: the error, and
/// nothing to restore.
pub fn bin_error_items(error: &str) -> (items: Vec<BinItem>)
    ensures
        items@.len() == 1,
        items@[0].name@ == open_failure_prefix() + error@,
        items@[0].description is None,
        items@[0].restore is None,
{
    let mut name = String::new();
    proof { reveal_strlit("Could not open bin: "); }
    name.append("Could not open bin: ");
    name.append(error);
    assert(name@ =~= open_failure_prefix() + error@);
    let mut items = Vec::new();
    items.push(BinItem { name, description: None, restore: None });
    items
}

/// The error shown when restoring a thread from the bin fails.
pub fn restore_failure_message(error: &str) -> (message: String)
    ensures
        message@ == restore_failure_prefix() + error@,
{
    let mut message = String::new();
    proof { reveal_strlit("Could not restore task: "); }
    message.append("Could not restore task: ");
    message.append(error);
    assert(message@ =~= restore_failure_prefix() + error@);
    message
}

/// The picker's title.
pub open spec fn bin_title_text() -> Seq<char> {
    seq!['B', 'i', 'n', ' ', '\u{b7}', ' ', '3', '0', ' ', 'd', 'a', 'y', 's', ' ', '\u{b7}', ' ', 'E', 'n', 't', 'e', 'r',
         ' ', 't', 'o', ' ', 'r', 'e', 's', 't', 'o', 'r', 'e']
}

/// The picker's title: it names the retention period and the key that
/// restores.
pub fn bin_title() -> (title: String)
    ensures
        title@ == bin_title_text(),
{
    proof { reveal_strlit("Bin \u{b7} 30 days \u{b7} Enter to restore"); }
    let title = String::from_str("Bin \u{b7} 30 days \u{b7} Enter to restore");
    assert(title@ =~= bin_title_text());
    title
}

/// The listing of binned threads, page by page: the threads gathered so
/// far, the cursor of the next page, and whether the last page was seen.
pub struct ThreadPager<T> {
    pub threads: Vec<T>,
    pub cursor: Option<String>,
    pub finished: bool,
}

impl<T> ThreadPager<T> {
    /// The listing before the first page: nothing gathered, no cursor.
    pub fn new() -> (p: ThreadPager<T>)
        ensures
            p.threads@.len() == 0,
            p.cursor is None,
            !p.finished,
    {
        ThreadPager { threads: Vec::new(), cursor: None, finished: false }
    }

    /// Takes in a page: its threads are added after those gathered, its
    /// cursor is the cursor of the next request, and the listing is finished
    /// when the page has no next cursor.
    pub fn accept(&mut self, page: Vec<T>, next_cursor: Option<String>)
        ensures
            final(self).threads@ == old(self).threads@ + page@,
            opt_view(final(self).cursor) == opt_view(next_cursor),
            final(self).finished == next_cursor is None,
    {
        let mut page = page;
        self.threads.append(&mut page);
        self.finished = next_cursor.is_none();
        self.cursor = next_cursor;
    }
}

} // verus!
