//! A note store that lives in memory.
mod persist;
mod query;
mod read;
mod write;

use vstd::prelude::*;
use crate::idset::{clone_id_option, distinct_ids, id_option, id_seq, id_set};
use crate::note::{Note, NoteID, Revision};
use crate::notemetadata::NoteMetadata;
use crate::notestore::model::{kept, RevisionView, StoreView};
use crate::notestore::preservation::{lemma_with_note_wf, lemma_without_current_wf};
use crate::notetype::NoteType;

verus! {

/// One revision as the store keeps it.
struct Record<T> {
    title: String,
    note_inner: T,
    revision: Revision,
    parent: Option<NoteID>,
    prev: Option<NoteID>,
    references: Vec<NoteID>,
    metadata: NoteMetadata,
    created_at: u128,
    modified_at: u128,
}

impl<T: NoteType> View for Record<T> {
    type V = RevisionView<T>;

    closed spec fn view(&self) -> RevisionView<T> {
        RevisionView {
            title: self.title@,
            note_inner: self.note_inner@,
            revision: self.revision@,
            parent: id_option(self.parent),
            prev: id_option(self.prev),
            metadata: self.metadata@,
            created_at: self.created_at,
            modified_at: self.modified_at,
        }
    }
}

/// The revisions of one note, oldest first, and whether the newest is current.
struct Entry<T> {
    id: NoteID,
    history: Vec<Record<T>>,
    live: bool,
}

/// The views of the records of a history.
spec fn history_view<T: NoteType>(h: Seq<Record<T>>) -> Seq<RevisionView<T>> {
    h.map_values(|r: Record<T>| r@)
}

/// Whether a record keeps the references of its content, each of them once.
spec fn record_ok<T: NoteType>(r: Record<T>) -> bool {
    &&& id_set(r.references@) == T::references(r.note_inner@)
    &&& id_seq(r.references@).no_duplicates()
}

impl<T: NoteType> Record<T> {
    /// What the store keeps of a note.
    fn of(note: &Note<T>) -> (record: Self)
        ensures
            record@ == kept(note@),
            record_ok(record),
    {
        let note_inner = note.note_inner.duplicate();
        let references = distinct_ids(&note_inner.get_references());
        Record {
            title: note.title.clone(),
            note_inner,
            revision: note.revision.clone(),
            parent: clone_id_option(&note.parent),
            prev: clone_id_option(&note.prev),
            references,
            metadata: note.metadata.clone(),
            created_at: note.created_at,
            modified_at: note.modified_at,
        }
    }
}

/// The place of the entry of note `id`.
fn position<T: NoteType>(entries: &Vec<Entry<T>>, id: &NoteID) -> (place: Option<usize>)
    ensures
        match place {
            Some(i) => i < entries@.len() && entries@[i as int].id@ == id@,
            None => forall|j: int| 0 <= j < entries@.len() ==> (#[trigger] entries@[j]).id@ != id@,
        },
{
    let mut i: usize = 0;
    while i < entries.len()
        invariant
            i <= entries@.len(),
            forall|j: int| 0 <= j < i ==> (#[trigger] entries@[j]).id@ != id@,
        decreases entries@.len() - i,
    {
        if entries[i].id == *id {
            return Some(i);
        }
        i += 1;
    }
    None
}

/// A store of notes in memory. Nothing in it outlives the process.
///
/// Its view is the pair of maps of [`StoreView`]. An operation that changes
/// the store takes it by `&mut`, so that at most one of them goes on at a
/// time; it either does all of its work or fails and changes nothing.
pub struct InMemoryStore<T: NoteType> {
    entries: Vec<Entry<T>>,
    index: Ghost<Map<Seq<char>, int>>,
}

/// Whether the entries and the index name each other: the index gives each
/// identity the place of its entry.
spec fn linked<T: NoteType>(entries: Seq<Entry<T>>, index: Map<Seq<char>, int>) -> bool {
    &&& forall|id: Seq<char>| #[trigger]
        index.dom().contains(id) ==> 0 <= index[id] < entries.len() && entries[index[id]].id@
            == id
    &&& forall|i: int|
        0 <= i < entries.len() ==> index.dom().contains((#[trigger] entries[i]).id@)
            && index[entries[i].id@] == i
}

/// Whether every history has a revision and every record keeps the
/// references of its content.
spec fn records_ok<T: NoteType>(entries: Seq<Entry<T>>) -> bool {
    &&& forall|i: int| 0 <= i < entries.len() ==> (#[trigger] entries[i]).history@.len() > 0
    &&& forall|i: int, k: int|
        0 <= i < entries.len() && 0 <= k < entries[i].history@.len() ==> record_ok(
            #[trigger] entries[i].history@[k],
        )
}

/// What a store with these entries holds.
spec fn view_of<T: NoteType>(entries: Seq<Entry<T>>, index: Map<Seq<char>, int>) -> StoreView<T> {
    StoreView {
        notes: Map::new(
            |id: Seq<char>| index.dom().contains(id),
            |id: Seq<char>| history_view(entries[index[id]].history@),
        ),
        current_revision: Map::new(
            |id: Seq<char>| index.dom().contains(id) && entries[index[id]].live,
            |id: Seq<char>| entries[index[id]].history@.last().revision@,
        ),
    }
}

impl<T: NoteType> View for InMemoryStore<T> {
    type V = StoreView<T>;

    closed spec fn view(&self) -> StoreView<T> {
        view_of(self.entries@, self.index@)
    }
}

impl<T: NoteType> InMemoryStore<T> {
    /// The entries and the index name each other, every history is in order,
    /// and the view is a store that the operations can reach.
    #[verifier::type_invariant]
    spec fn inv(self) -> bool {
        &&& linked(self.entries@, self.index@)
        &&& records_ok(self.entries@)
        &&& self@.wf()
    }

    /// A store that holds no note.
    pub fn new() -> (store: Self)
        ensures
            store@ == StoreView::<T>::empty(),
            store@.wf(),
    {
        let store = InMemoryStore { entries: Vec::new(), index: Ghost(Map::empty()) };
        assert(store@.notes =~= Map::empty());
        assert(store@.current_revision =~= Map::empty());
        store
    }

    /// Whether the entry at place `i` is a live note that branches from `id`.
    spec fn branch_at(self, i: int, id: Seq<char>) -> bool {
        self.entries@[i].live && id_option(self.entries@[i].history@.last().parent) == Some(id)
    }

    /// Whether the entry at place `i` is a live note that follows `id`.
    spec fn next_at(self, i: int, id: Seq<char>) -> bool {
        self.entries@[i].live && id_option(self.entries@[i].history@.last().prev) == Some(id)
    }

    /// Whether the entry at place `i` is a live note that refers to `id`.
    spec fn referent_at(self, i: int, id: Seq<char>) -> bool {
        self.entries@[i].live && id_set(self.entries@[i].history@.last().references@).contains(id)
    }

    /// The entry at place `i` is the one that the model knows under its
    /// identity.
    proof fn lemma_place(self, i: int)
        requires
            self.inv(),
            0 <= i < self.entries@.len(),
        ensures
            self@.known(self.entries@[i].id@),
            self.index@[self.entries@[i].id@] == i,
    {
    }

    /// What the model says of a known note is what its entry holds.
    proof fn lemma_entry(self, c: Seq<char>)
        requires
            self.inv(),
            self@.known(c),
        ensures
            0 <= self.index@[c] < self.entries@.len(),
            self.entries@[self.index@[c]].id@ == c,
            self@.notes[c] == history_view(self.entries@[self.index@[c]].history@),
            self@.notes[c].len() == self.entries@[self.index@[c]].history@.len(),
            self@.head(c) == self.entries@[self.index@[c]].history@.last()@,
            self@.live(c) == self.entries@[self.index@[c]].live,
            forall|id: Seq<char>| self@.is_branch(id, c) == self.branch_at(self.index@[c], id),
            forall|id: Seq<char>| self@.is_next(id, c) == self.next_at(self.index@[c], id),
            forall|id: Seq<char>| self@.is_referent(id, c) == self.referent_at(self.index@[c], id),
    {
        let i = self.index@[c];
        assert(record_ok(self.entries@[i].history@[self.entries@[i].history@.len() - 1]));
    }

    /// The place of the note `id` among the entries.
    fn find(&self, id: &NoteID) -> (place: Option<usize>)
        ensures
            match place {
                Some(i) => self@.known(id@) && i < self.entries@.len() && self.index@[id@] == i
                    && self.entries@[i as int].id@ == id@,
                None => !self@.known(id@),
            },
    {
        let place = position(&self.entries, id);
        proof {
            use_type_invariant(self);
            if self@.known(id@) {
                assert(self.entries@[self.index@[id@]].id@ == id@);
            }
        }
        place
    }

    /// Takes everything out of the store, which is left empty.
    fn take(&mut self) -> (parts: (Vec<Entry<T>>, Ghost<Map<Seq<char>, int>>))
        ensures
            parts.0 == old(self).entries,
            parts.1 == old(self).index,
    {
        let mut taken = InMemoryStore::new();
        std::mem::swap(self, &mut taken);
        let InMemoryStore { entries, index } = taken;
        (entries, index)
    }

    /// Adds a note under the new identity `id`, with `record` as its only
    /// revision.
    fn add_entry(&mut self, id: NoteID, record: Record<T>)
        requires
            !old(self)@.known(id@),
            record_ok(record),
            !(record@.parent.is_some() && record@.prev.is_some()),
            record@.prev.is_some() ==> old(self)@.next(record@.prev.unwrap()).is_none(),
        ensures
            final(self)@ == old(self)@.with_note(id@, record@),
    {
        proof {
            use_type_invariant(&*self);
            lemma_with_note_wf(self@, id@, record@);
        }
        let ghost before = *self;
        let (mut entries, index) = self.take();
        let ghost place = entries@.len() as int;
        let mut history: Vec<Record<T>> = Vec::new();
        history.push(record);
        entries.push(Entry { id, history, live: true });
        proof {
            let after = InMemoryStore { entries, index: Ghost(index@.insert(id@, place)) };
            assert(history_view(seq![record]) =~= seq![record@]);
            assert(forall|i: int| 0 <= i < place ==> after.entries@[i] == before.entries@[i]);
            assert(forall|c: Seq<char>| before@.known(c) ==> after.index@[c] == before.index@[c]);
            assert(after@.notes =~= before@.with_note(id@, record@).notes);
            assert(after@.current_revision =~= before@.with_note(
                id@,
                record@,
            ).current_revision);
            assert(after@ == before@.with_note(id@, record@));
            assert forall|i: int, k: int|
                0 <= i < after.entries@.len() && 0 <= k < after.entries@[i].history@.len()
                    implies record_ok(#[trigger] after.entries@[i].history@[k]) by {
                if i < place {
                    assert(record_ok(before.entries@[i].history@[k]));
                }
            }
            assert(after.inv());
        }
        *self = InMemoryStore { entries, index: Ghost(index@.insert(id@, place)) };
    }

    /// What the store holds after `record` has become the newest and current
    /// revision of the note at place `i`, and the note at place `j`, if one is
    /// named, has been deleted.
    spec fn after_revision(self, i: int, record: Record<T>, retired: Option<usize>) -> StoreView<T> {
        let t = self@.with_revision(self.entries@[i].id@, record@);
        match retired {
            Some(j) => t.without_current(self.entries@[j as int].id@),
            None => t,
        }
    }

    /// Makes `record` the newest and current revision of the note at place
    /// `i`; then deletes the note at place `j`, if one is named.
    fn add_revision(&mut self, i: usize, record: Record<T>, retired: Option<usize>)
        requires
            i < old(self).entries@.len(),
            retired matches Some(j) ==> j < old(self).entries@.len(),
            record_ok(record),
            old(self).after_revision(i as int, record, retired).wf(),
        ensures
            final(self)@ == old(self).after_revision(i as int, record, retired),
    {
        proof {
            use_type_invariant(&*self);
        }
        let ghost before = *self;
        let (mut entries, index) = self.take();
        entries[i].history.push(record);
        entries[i].live = true;
        match retired {
            Some(j) => {
                entries[j].live = false;
            },
            None => {},
        }
        proof {
            let after = InMemoryStore { entries, index };
            let id = before.entries@[i as int].id@;
            before.lemma_place(i as int);
            assert(forall|n: int|
                0 <= n < entries@.len() ==> (#[trigger] after.entries@[n]).id
                    == before.entries@[n].id);
            assert(forall|n: int|
                0 <= n < entries@.len() && n != i ==> (#[trigger] after.entries@[n]).history
                    == before.entries@[n].history);
            assert(after.entries@[i as int].history@ == before.entries@[i as int].history@.push(
                record,
            ));
            assert(history_view(before.entries@[i as int].history@.push(record)) =~= history_view(
                before.entries@[i as int].history@,
            ).push(record@));
            assert(after@.notes =~= before.after_revision(i as int, record, retired).notes);
            assert(after@.current_revision =~= before.after_revision(
                i as int,
                record,
                retired,
            ).current_revision);
            assert forall|n: int, k: int|
                0 <= n < after.entries@.len() && 0 <= k < after.entries@[n].history@.len()
                    implies record_ok(#[trigger] after.entries@[n].history@[k]) by {
                if n != i || k < before.entries@[n].history@.len() {
                    assert(record_ok(before.entries@[n].history@[k]));
                }
            }
            assert(after.inv());
        }
        *self = InMemoryStore { entries, index };
    }

    /// Deletes the note at place `j`: its history stays.
    fn retire(&mut self, j: usize)
        requires
            j < old(self).entries@.len(),
        ensures
            final(self)@ == old(self)@.without_current(old(self).entries@[j as int].id@),
    {
        proof {
            use_type_invariant(&*self);
            lemma_without_current_wf(self@, self.entries@[j as int].id@);
        }
        let ghost before = *self;
        let (mut entries, index) = self.take();
        entries[j].live = false;
        proof {
            let after = InMemoryStore { entries, index };
            let id = before.entries@[j as int].id@;
            before.lemma_place(j as int);
            assert(forall|n: int|
                0 <= n < entries@.len() ==> (#[trigger] after.entries@[n]).id
                    == before.entries@[n].id && after.entries@[n].history
                    == before.entries@[n].history);
            assert(after@.notes =~= before@.without_current(id).notes);
            assert(after@.current_revision =~= before@.without_current(id).current_revision);
            assert forall|n: int, k: int|
                0 <= n < after.entries@.len() && 0 <= k < after.entries@[n].history@.len()
                    implies record_ok(#[trigger] after.entries@[n].history@[k]) by {
                assert(record_ok(before.entries@[n].history@[k]));
            }
            assert(after.inv());
        }
        *self = InMemoryStore { entries, index };
    }
}

impl<T: NoteType> Default for InMemoryStore<T> {
    fn default() -> (store: Self)
        ensures
            store@ == StoreView::<T>::empty(),
    {
        Self::new()
    }
}

} // verus!
