//! The Entry tree browser of one Snapshot: its top-level rows, the text beside each
//! row, which rows a Restore takes, and when a directory's children are fetched.
//!
//! A directory's children are only fetched the first time its row is expanded, and
//! never twice: GTK recycles rows while scrolling, so the same directory is often
//! bound again.

use vstd::prelude::*;

use crate::text::{decimal, decimal_text, leading_timestamp, spec_leading_timestamp};
use crate::types::{strings_view, Entry, EntryKind};

verus! {

/// `path` without the slashes at its end.
pub open spec fn trim_trailing_slashes(path: Seq<char>) -> Seq<char>
    decreases path.len(),
{
    if path.len() > 0 && path.last() == '/' {
        trim_trailing_slashes(path.drop_last())
    } else {
        path
    }
}

/// What follows the last slash of `path` (all of it when it has none).
pub open spec fn final_segment(path: Seq<char>) -> Seq<char>
    decreases path.len(),
{
    if path.len() == 0 || path.last() == '/' {
        Seq::empty()
    } else {
        final_segment(path.drop_last()).push(path.last())
    }
}

/// The name a top-level directory of a Snapshot is shown with: the last non-empty
/// piece of its path between slashes, or the whole path when there is none.
pub open spec fn spec_root_name(path: Seq<char>) -> Seq<char> {
    let trimmed = trim_trailing_slashes(path);
    if trimmed.len() == 0 {
        path
    } else {
        final_segment(trimmed)
    }
}

/// The name a top-level directory of a Snapshot is shown with (see
/// [`spec_root_name`]).
pub fn root_name(path: &str) -> (name: String)
    ensures
        name@ == spec_root_name(path@),
{
    let n = path.unicode_len();
    let mut end: usize = n;
    assert(path@.take(n as int) =~= path@);
    while end > 0 && path.get_char(end - 1) == '/'
        invariant
            n == path@.len(),
            end <= n,
            trim_trailing_slashes(path@) == trim_trailing_slashes(path@.take(end as int)),
        decreases end,
    {
        assert(path@.take(end as int).drop_last() =~= path@.take(end - 1));
        end = end - 1;
    }
    let ghost trimmed = path@.take(end as int);
    assert(trim_trailing_slashes(trimmed) == trimmed);
    if end == 0 {
        return path.to_owned();
    }
    let mut start: usize = end;
    assert(path@.subrange(end as int, end as int) =~= Seq::<char>::empty());
    while start > 0 && path.get_char(start - 1) != '/'
        invariant
            n == path@.len(),
            start <= end <= n,
            trimmed == path@.take(end as int),
            final_segment(trimmed) == final_segment(path@.take(start as int)) + path@.subrange(
                start as int,
                end as int,
            ),
        decreases start,
    {
        let ghost before = path@.take(start as int);
        assert(before.drop_last() =~= path@.take(start - 1));
        assert(path@.subrange(start - 1, end as int) =~= seq![path@[start - 1]] + path@.subrange(
            start as int,
            end as int,
        ));
        start = start - 1;
    }
    assert(final_segment(path@.take(start as int)) =~= Seq::<char>::empty());
    path.substring_char(start, end).to_owned()
}

/// The Entry standing for the top-level directory `path` of a Snapshot: a directory,
/// named after its last path piece, with no size and no modification time.
pub fn root_entry(path: String) -> (entry: Entry)
    ensures
        entry.name@ == spec_root_name(path@),
        entry.path == path,
        entry.kind == EntryKind::Directory,
        entry.size is None,
        entry.mtime@ == Seq::<char>::empty(),
{
    let name = root_name(path.as_str());
    Entry { name, path, kind: EntryKind::Directory, size: None, mtime: String::new() }
}

/// The text shown beside an Entry: its size in bytes when known, and its
/// modification time down to the second.
pub open spec fn spec_entry_meta(entry: Entry) -> Seq<char> {
    match entry.size {
        Some(size) => decimal(size as nat) + " B · "@ + spec_leading_timestamp(entry.mtime@),
        None => spec_leading_timestamp(entry.mtime@),
    }
}

/// The text shown beside an Entry (see [`spec_entry_meta`]).
pub fn format_meta(entry: &Entry) -> (text: String)
    ensures
        text@ == spec_entry_meta(*entry),
{
    match entry.size {
        Some(size) => {
            let mut text = decimal_text(size);
            text.append(" B · ");
            text.append(leading_timestamp(entry.mtime.as_str()).as_str());
            text
        },
        None => leading_timestamp(entry.mtime.as_str()),
    }
}

/// The paths of the selected rows, in row order.
pub open spec fn spec_selected_paths(rows: Seq<(bool, String)>) -> Seq<Seq<char>>
    decreases rows.len(),
{
    if rows.len() == 0 {
        Seq::empty()
    } else if rows.last().0 {
        spec_selected_paths(rows.drop_last()).push(rows.last().1@)
    } else {
        spec_selected_paths(rows.drop_last())
    }
}

/// The paths a "Restore Selected" takes, from each row's selection state and path.
pub fn selected_paths(rows: &Vec<(bool, String)>) -> (paths: Vec<String>)
    ensures
        strings_view(paths@) == spec_selected_paths(rows@),
{
    let mut paths: Vec<String> = Vec::new();
    let mut i: usize = 0;
    while i < rows.len()
        invariant
            i <= rows@.len(),
            strings_view(paths@) == spec_selected_paths(rows@.take(i as int)),
        decreases rows@.len() - i,
    {
        assert(rows@.take(i + 1).drop_last() =~= rows@.take(i as int));
        let ghost before = paths@;
        if rows[i].0 {
            paths.push(rows[i].1.clone());
            assert(strings_view(paths@) =~= strings_view(before).push(rows@[i as int].1@));
        }
        i = i + 1;
    }
    assert(rows@.take(i as int) =~= rows@);
    paths
}

/// Whether a row, in state `loaded`, fetches its children when told it is now
/// `expanded` or not.
pub open spec fn fetches(loaded: bool, expanded: bool) -> bool {
    expanded && !loaded
}

/// Whether a row, in state `loaded`, counts as loaded after being told it is now
/// `expanded` or not.
pub open spec fn loaded_after(loaded: bool, expanded: bool) -> bool {
    loaded || expanded
}

/// How many fetches a row starting in state `loaded` makes over a series of
/// notifications (`true` for expanded).
pub open spec fn fetch_count(loaded: bool, notifications: Seq<bool>) -> nat
    decreases notifications.len(),
{
    if notifications.len() == 0 {
        0
    } else {
        let n = notifications[0];
        (if fetches(loaded, n) {
            1nat
        } else {
            0nat
        }) + fetch_count(loaded_after(loaded, n), notifications.drop_first())
    }
}

/// Whether a directory row's children were already asked for.
#[derive(Debug, Clone, Copy, PartialEq, Eq, Structural)]
pub struct ChildLoad {
    pub loaded: bool,
}

impl ChildLoad {
    /// A directory whose children were not asked for yet.
    pub fn new() -> (load: ChildLoad)
        ensures
            !load.loaded,
    {
        ChildLoad { loaded: false }
    }

    /// Called whenever the row is bound or its expansion changes. Returns whether the
    /// children must be fetched now: only when the row is expanded and they never
    /// were before.
    pub fn on_expanded(&mut self, expanded: bool) -> (fetch: bool)
        ensures
            fetch == fetches(old(self).loaded, expanded),
            final(self).loaded == loaded_after(old(self).loaded, expanded),
    {
        if !expanded || self.loaded {
            return false;
        }
        self.loaded = true;
        true
    }
}

/// Whatever notifications a row gets, its children are fetched at most once, and
/// never again once they were.
pub proof fn lemma_children_fetched_at_most_once(loaded: bool, notifications: Seq<bool>)
    ensures
        fetch_count(loaded, notifications) <= 1,
        loaded ==> fetch_count(loaded, notifications) == 0,
    decreases notifications.len(),
{
    if notifications.len() > 0 {
        let n = notifications[0];
        lemma_children_fetched_at_most_once(loaded_after(loaded, n), notifications.drop_first());
    }
}

/// A Restore takes exactly the selected rows, each once, in row order: there is a
/// strictly increasing choice of rows, all of them selected, the `j`-th of which has
/// the `j`-th path, and every selected row is one of them.
pub proof fn lemma_selected_paths_follow_the_rows(rows: Seq<(bool, String)>) -> (at: Seq<int>)
    ensures
        at.len() == spec_selected_paths(rows).len(),
        forall|j: int, k: int| 0 <= j < k < at.len() ==> #[trigger] at[j] < #[trigger] at[k],
        forall|j: int|
            0 <= j < at.len() ==> 0 <= #[trigger] at[j] < rows.len() && rows[at[j]].0
                && spec_selected_paths(rows)[j] == rows[at[j]].1@,
        forall|i: int|
            0 <= i < rows.len() && (#[trigger] rows[i]).0 ==> exists|j: int|
                0 <= j < at.len() && #[trigger] at[j] == i,
    decreases rows.len(),
{
    if rows.len() == 0 {
        Seq::empty()
    } else {
        let rest = rows.drop_last();
        let before_at = lemma_selected_paths_follow_the_rows(rest);
        let last = rows.len() - 1;
        assert(rows[last] == rows.last());
        assert forall|j: int| 0 <= j < before_at.len() implies rest[before_at[j]] == rows[before_at[j]] by {}
        if rows.last().0 {
            let at = before_at.push(last);
            assert forall|j: int| 0 <= j < at.len() implies 0 <= #[trigger] at[j] < rows.len()
                && rows[at[j]].0 && spec_selected_paths(rows)[j] == rows[at[j]].1@ by {
                if j < before_at.len() {
                    assert(at[j] == before_at[j]);
                }
            }
            assert forall|i: int| 0 <= i < rows.len() && (#[trigger] rows[i]).0 implies exists|j: int|
                0 <= j < at.len() && #[trigger] at[j] == i by {
                if i < last {
                    assert(rest[i] == rows[i]);
                    let j = choose|j: int| 0 <= j < before_at.len() && #[trigger] before_at[j] == i;
                    assert(at[j] == before_at[j]);
                } else {
                    assert(at[at.len() - 1] == i);
                }
            }
            at
        } else {
            assert forall|i: int| 0 <= i < rows.len() && (#[trigger] rows[i]).0 implies exists|j: int|
                0 <= j < before_at.len() && #[trigger] before_at[j] == i by {
                assert(i < last);
                assert(rest[i] == rows[i]);
            }
            before_at
        }
    }
}

/// What follows the last slash holds no slash.
proof fn lemma_final_segment_has_no_slash(path: Seq<char>)
    ensures
        forall|i: int| 0 <= i < final_segment(path).len() ==> #[trigger] final_segment(path)[i] != '/',
        final_segment(path).len() <= path.len(),
    decreases path.len(),
{
    if path.len() > 0 && path.last() != '/' {
        lemma_final_segment_has_no_slash(path.drop_last());
    }
}

/// What follows the last slash of a path that ends in `name` after a slash (or is
/// `name` alone) is `name`.
proof fn lemma_final_segment_of_name(start: Seq<char>, name: Seq<char>)
    requires
        start.len() == 0 || start.last() == '/',
        forall|i: int| 0 <= i < name.len() ==> name[i] != '/',
    ensures
        final_segment(start + name) == name,
    decreases name.len(),
{
    if name.len() > 0 {
        let shorter = name.drop_last();
        lemma_final_segment_of_name(start, shorter);
        assert((start + name).drop_last() =~= start + shorter);
        assert(shorter.push(name.last()) =~= name);
    } else {
        assert(start + name =~= start);
    }
}

/// A top-level directory is shown by its last name: for a path that ends in a
/// non-empty `name` without slashes (after a slash, or alone), with or without a
/// trailing slash, the shown name is `name`.
pub proof fn lemma_root_name_is_the_last_name(start: Seq<char>, name: Seq<char>)
    requires
        start.len() == 0 || start.last() == '/',
        name.len() > 0,
        forall|i: int| 0 <= i < name.len() ==> name[i] != '/',
    ensures
        spec_root_name(start + name) == name,
        spec_root_name((start + name).push('/')) == name,
{
    let p = start + name;
    assert(p.last() == name.last());
    lemma_final_segment_of_name(start, name);
    assert(p.push('/').drop_last() =~= p);
}

/// A shown name holds no slash, unless the path is made of slashes only (and is then
/// shown as it is).
pub proof fn lemma_root_name_has_no_slash(path: Seq<char>)
    ensures
        trim_trailing_slashes(path).len() > 0 ==> forall|i: int|
            0 <= i < spec_root_name(path).len() ==> #[trigger] spec_root_name(path)[i] != '/',
        trim_trailing_slashes(path).len() == 0 ==> spec_root_name(path) == path,
{
    lemma_final_segment_has_no_slash(trim_trailing_slashes(path));
}

} // verus!
