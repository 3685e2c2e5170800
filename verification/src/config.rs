//! The list of Repositories the app knows about, minus any secret.
//!
//! Non-secret metadata (display name, Backend type, path/endpoint) is what a
//! [`RepositoryStore`] holds; the application reads and writes it as a TOML file. The
//! Repository Password and any Backend credential are never part of it — they live in
//! the system keyring (see `keyring`).

use vstd::prelude::*;

use crate::types::Backend;

verus! {

/// One Repository the app is attached to, as remembered between runs.
#[derive(Debug, Clone, PartialEq, Eq)]
pub struct RepositoryEntry {
    pub id: String,
    pub name: String,
    pub backend: Backend,
}

impl RepositoryEntry {
    /// A copy of this entry, field for field.
    pub fn duplicate(&self) -> (copy: RepositoryEntry)
        ensures
            copy == *self,
    {
        RepositoryEntry { id: self.id.clone(), name: self.name.clone(), backend: self.backend.duplicate() }
    }
}

/// Whether `entry` is the Repository with id `id`.
pub open spec fn has_id(entry: RepositoryEntry, id: Seq<char>) -> bool {
    entry.id@ == id
}

/// `i` is the position of the first entry of `entries` with id `id`.
pub open spec fn is_first_with_id(entries: Seq<RepositoryEntry>, id: Seq<char>, i: int) -> bool {
    &&& 0 <= i < entries.len()
    &&& has_id(entries[i], id)
    &&& forall|j: int| 0 <= j < i ==> !has_id(#[trigger] entries[j], id)
}

/// `after` is `before` with the first entry whose id is `id` (if any) renamed to
/// `name`, and everything else — order, ids, Backends, other names — unchanged.
pub open spec fn renamed(
    before: Seq<RepositoryEntry>,
    after: Seq<RepositoryEntry>,
    id: Seq<char>,
    name: Seq<char>,
) -> bool {
    &&& after.len() == before.len()
    &&& forall|i: int|
        #![trigger after[i]]
        0 <= i < before.len() ==> if is_first_with_id(before, id, i) {
            &&& after[i].id == before[i].id
            &&& after[i].backend == before[i].backend
            &&& after[i].name@ == name
        } else {
            after[i] == before[i]
        }
}

/// `entries` without the entries whose id is `id`, in their original order.
pub open spec fn without_id(entries: Seq<RepositoryEntry>, id: Seq<char>) -> Seq<RepositoryEntry> {
    entries.filter(|e: RepositoryEntry| !has_id(e, id))
}

/// The Repositories stored in the config file at one path.
pub struct RepositoryStore {
    path: String,
    entries: Vec<RepositoryEntry>,
}

impl RepositoryStore {
    /// The path of the config file this store stands for.
    pub closed spec fn spec_path(&self) -> Seq<char> {
        self.path@
    }

    /// The Repositories in this store, in the order they were added.
    pub closed spec fn spec_entries(&self) -> Seq<RepositoryEntry> {
        self.entries@
    }
}

impl View for RepositoryStore {
    type V = Seq<RepositoryEntry>;

    open spec fn view(&self) -> Seq<RepositoryEntry> {
        self.spec_entries()
    }
}

impl RepositoryStore {
    /// A store for the config file at `path` that holds no Repository yet — what
    /// loading a file that does not exist (or does not parse) gives.
    pub fn at_path(path: String) -> (store: RepositoryStore)
        ensures
            store.spec_path() == path@,
            store@ == Seq::<RepositoryEntry>::empty(),
    {
        RepositoryStore { path, entries: Vec::new() }
    }

    /// A store for the config file at `path` whose contents are `entries`.
    pub fn with_entries(path: String, entries: Vec<RepositoryEntry>) -> (store: RepositoryStore)
        ensures
            store.spec_path() == path@,
            store@ == entries@,
    {
        RepositoryStore { path, entries }
    }

    /// The path of the config file.
    pub fn path(&self) -> (path: &str)
        ensures
            path@ == self.spec_path(),
    {
        self.path.as_str()
    }

    /// The Repositories currently stored, in order.
    pub fn load(&self) -> (entries: Vec<RepositoryEntry>)
        ensures
            entries@ == self@,
    {
        let mut entries: Vec<RepositoryEntry> = Vec::new();
        let mut i: usize = 0;
        while i < self.entries.len()
            invariant
                i <= self.entries@.len(),
                entries@ == self.entries@.take(i as int),
            decreases self.entries@.len() - i,
        {
            entries.push(self.entries[i].duplicate());
            assert(self.entries@.take(i + 1) =~= self.entries@.take(i as int).push(self.entries@[i as int]));
            i = i + 1;
        }
        assert(self.entries@.take(i as int) =~= self.entries@);
        entries
    }

    /// Appends `entry` after the Repositories already stored.
    pub fn add(&mut self, entry: RepositoryEntry)
        ensures
            final(self)@ == old(self)@.push(entry),
            final(self).spec_path() == old(self).spec_path(),
    {
        self.entries.push(entry);
    }

    /// Only renames the app's local display name of the first Repository with id
    /// `id` — never touches the Repository itself. Nothing changes when no Repository
    /// has that id.
    pub fn rename(&mut self, id: &str, new_name: &str)
        ensures
            renamed(old(self)@, final(self)@, id@, new_name@),
            final(self).spec_path() == old(self).spec_path(),
    {
        let wanted = id.to_owned();
        let len = self.entries.len();
        let mut k: usize = 0;
        while k < len
            invariant
                len == self.entries@.len(),
                k <= len,
                wanted@ == id@,
                forall|j: int| 0 <= j < k ==> !has_id(#[trigger] self.entries@[j], id@),
            ensures
                k <= len,
                k < len ==> has_id(self.entries@[k as int], id@),
                forall|j: int| 0 <= j < k ==> !has_id(#[trigger] self.entries@[j], id@),
            decreases len - k,
        {
            if self.entries[k].id == wanted {
                break;
            }
            k = k + 1;
        }
        if k < len {
            let old_entries = Ghost(self.entries@);
            let current = &self.entries[k];
            let updated = RepositoryEntry {
                id: current.id.clone(),
                name: new_name.to_owned(),
                backend: current.backend.duplicate(),
            };
            self.entries.set(k, updated);
            assert forall|i: int| 0 <= i < old_entries@.len() && is_first_with_id(old_entries@, id@, i) implies i == k by {
                if i > k {
                    // An earlier match at `k` contradicts `i` being the first one.
                    assert(!has_id(old_entries@[k as int], id@));
                }
            }
        } else {
            assert forall|i: int| 0 <= i < len implies !is_first_with_id(self.entries@, id@, i) by {
                assert(!has_id(self.entries@[i], id@));
            }
        }
    }

    /// Only forgets the Repositories with id `id` locally (their config entries) —
    /// never touches a Repository itself or its backing storage. Callers are
    /// responsible for also deleting its keyring credentials.
    pub fn remove(&mut self, id: &str)
        ensures
            final(self)@ == without_id(old(self)@, id@),
            final(self).spec_path() == old(self).spec_path(),
    {
        let wanted = id.to_owned();
        let mut previous: Vec<RepositoryEntry> = Vec::new();
        std::mem::swap(&mut previous, &mut self.entries);
        let ghost keep = |e: RepositoryEntry| !has_id(e, id@);
        let mut i: usize = 0;
        while i < previous.len()
            invariant
                i <= previous@.len(),
                wanted@ == id@,
                self.path == old(self).path,
                previous@ == old(self).entries@,
                keep == (|e: RepositoryEntry| !has_id(e, id@)),
                self.entries@ == previous@.take(i as int).filter(keep),
            decreases previous@.len() - i,
        {
            proof {
                previous@.take(i as int).lemma_filter_push(previous@[i as int], keep);
                assert(previous@.take(i + 1) =~= previous@.take(i as int).push(previous@[i as int]));
            }
            if previous[i].id != wanted {
                self.entries.push(previous[i].duplicate());
            }
            i = i + 1;
        }
        assert(previous@.take(i as int) =~= previous@);
    }
}

/// Removing an id that no stored Repository has changes nothing.
pub proof fn lemma_remove_absent_id_changes_nothing(entries: Seq<RepositoryEntry>, id: Seq<char>)
    requires
        forall|i: int| 0 <= i < entries.len() ==> !has_id(#[trigger] entries[i], id),
    ensures
        without_id(entries, id) == entries,
    decreases entries.len(),
{
    reveal(Seq::filter);
    if entries.len() > 0 {
        let rest = entries.drop_last();
        assert forall|i: int| 0 <= i < rest.len() implies !has_id(#[trigger] rest[i], id) by {
            assert(rest[i] == entries[i]);
        }
        lemma_remove_absent_id_changes_nothing(rest, id);
        assert(!has_id(entries.last(), id));
        assert(rest.push(entries.last()) =~= entries);
    }
}

/// After a removal no stored Repository has the removed id, every Repository with
/// another id is still stored, and the list never grows.
pub proof fn lemma_remove_forgets_only_that_id(entries: Seq<RepositoryEntry>, id: Seq<char>)
    ensures
        forall|i: int|
            0 <= i < without_id(entries, id).len() ==> !has_id(
                #[trigger] without_id(entries, id)[i],
                id,
            ),
        forall|i: int|
            0 <= i < entries.len() && !has_id(entries[i], id) ==> #[trigger] without_id(
                entries,
                id,
            ).contains(entries[i]),
        without_id(entries, id).len() <= entries.len(),
{
    let keep = |e: RepositoryEntry| !has_id(e, id);
    assert forall|i: int| 0 <= i < without_id(entries, id).len() implies !has_id(
        #[trigger] without_id(entries, id)[i],
        id,
    ) by {
        entries.lemma_filter_pred(keep, i);
    }
    assert forall|i: int| 0 <= i < entries.len() && !has_id(entries[i], id) implies #[trigger] without_id(
        entries,
        id,
    ).contains(entries[i]) by {
        entries.lemma_filter_contains(keep, i);
    }
    entries.lemma_filter_len(keep);
}

/// Removing the same id twice is the same as removing it once.
pub proof fn lemma_remove_is_idempotent(entries: Seq<RepositoryEntry>, id: Seq<char>)
    ensures
        without_id(without_id(entries, id), id) == without_id(entries, id),
{
    lemma_remove_forgets_only_that_id(entries, id);
    lemma_remove_absent_id_changes_nothing(without_id(entries, id), id);
}

/// Adding a Repository whose id is new and then removing that id gives back the
/// list from before the addition.
pub proof fn lemma_remove_undoes_add(entries: Seq<RepositoryEntry>, entry: RepositoryEntry)
    requires
        forall|i: int| 0 <= i < entries.len() ==> !has_id(#[trigger] entries[i], entry.id@),
    ensures
        without_id(entries.push(entry), entry.id@) == entries,
{
    let keep = |e: RepositoryEntry| !has_id(e, entry.id@);
    entries.lemma_filter_push(entry, keep);
    lemma_remove_absent_id_changes_nothing(entries, entry.id@);
}

/// A rename never changes which Repositories are stored: same length, same order,
/// same ids and Backends; only one display name may differ.
pub proof fn lemma_rename_keeps_ids_and_backends(
    before: Seq<RepositoryEntry>,
    after: Seq<RepositoryEntry>,
    id: Seq<char>,
    name: Seq<char>,
)
    requires
        renamed(before, after, id, name),
    ensures
        after.len() == before.len(),
        forall|i: int|
            0 <= i < before.len() ==> (#[trigger] after[i]).id == before[i].id && after[i].backend
                == before[i].backend,
{
    assert forall|i: int| 0 <= i < before.len() implies (#[trigger] after[i]).id == before[i].id
        && after[i].backend == before[i].backend by {
        if is_first_with_id(before, id, i) {
        } else {
            assert(after[i] == before[i]);
        }
    }
}

/// Renaming an id that no stored Repository has changes nothing.
pub proof fn lemma_rename_absent_id_changes_nothing(
    before: Seq<RepositoryEntry>,
    after: Seq<RepositoryEntry>,
    id: Seq<char>,
    name: Seq<char>,
)
    requires
        renamed(before, after, id, name),
        forall|i: int| 0 <= i < before.len() ==> !has_id(#[trigger] before[i], id),
    ensures
        after == before,
{
    assert forall|i: int| 0 <= i < before.len() implies #[trigger] after[i] == before[i] by {
        assert(!is_first_with_id(before, id, i));
    }
    assert(after =~= before);
}

/// Two lists that agree on which entries carry `id`, and agree exactly on every
/// other entry, are the same once `id` is removed.
proof fn lemma_remove_ignores_entries_with_id(
    a: Seq<RepositoryEntry>,
    b: Seq<RepositoryEntry>,
    id: Seq<char>,
)
    requires
        a.len() == b.len(),
        forall|i: int| 0 <= i < a.len() ==> has_id(#[trigger] a[i], id) == has_id(b[i], id),
        forall|i: int| 0 <= i < a.len() && !has_id(#[trigger] a[i], id) ==> a[i] == b[i],
    ensures
        without_id(a, id) == without_id(b, id),
    decreases a.len(),
{
    reveal(Seq::filter);
    if a.len() > 0 {
        let (ra, rb) = (a.drop_last(), b.drop_last());
        assert forall|i: int| 0 <= i < ra.len() implies has_id(#[trigger] ra[i], id) == has_id(
            rb[i],
            id,
        ) by {
            assert(ra[i] == a[i] && rb[i] == b[i]);
        }
        assert forall|i: int| 0 <= i < ra.len() && !has_id(#[trigger] ra[i], id) implies ra[i]
            == rb[i] by {
            assert(ra[i] == a[i] && rb[i] == b[i]);
        }
        lemma_remove_ignores_entries_with_id(ra, rb, id);
        assert(has_id(a[a.len() - 1], id) == has_id(b[b.len() - 1], id));
    }
}

/// Renaming a Repository and then removing it leaves the same list as removing it
/// straight away: a rename touches nothing but the renamed Repository.
pub proof fn lemma_remove_after_rename(
    before: Seq<RepositoryEntry>,
    after: Seq<RepositoryEntry>,
    id: Seq<char>,
    name: Seq<char>,
)
    requires
        renamed(before, after, id, name),
    ensures
        without_id(after, id) == without_id(before, id),
{
    assert forall|i: int| 0 <= i < before.len() implies has_id(#[trigger] before[i], id) == has_id(
        after[i],
        id,
    ) by {
        if is_first_with_id(before, id, i) {
        } else {
            assert(after[i] == before[i]);
        }
    }
    assert forall|i: int| 0 <= i < before.len() && !has_id(#[trigger] before[i], id) implies before[i]
        == after[i] by {
        assert(!is_first_with_id(before, id, i));
        assert(after[i] == before[i]);
    }
    lemma_remove_ignores_entries_with_id(before, after, id);
}

} // verus!
