//! A store written out as plain values, and read back: the layout of a
//! persisted document.
use vstd::prelude::*;
use crate::errors::ErrorView;
use crate::note::{LocatorView, Note, NoteID, NoteView, Revision};
use crate::notestore::model::{kept_all, StoreView};
use crate::notetype::NoteType;

verus! {

/// All revisions of one note, oldest first.
#[derive(Debug)]
pub struct NoteHistory<T> {
    pub id: NoteID,
    pub revisions: Vec<Note<T>>,
}

/// The current revision of one live note.
#[derive(Debug)]
pub struct CurrentRevision {
    pub id: NoteID,
    pub revision: Revision,
}

/// Everything that a store holds: the revisions of every note, and the
/// current revision of every live one.
#[derive(Debug)]
pub struct StoreSnapshot<T> {
    pub notes: Vec<NoteHistory<T>>,
    pub current_revision: Vec<CurrentRevision>,
}

/// What a history says.
pub struct HistoryView<T: NoteType> {
    pub id: Seq<char>,
    pub revisions: Seq<NoteView<T>>,
}

/// What a snapshot says.
pub struct SnapshotView<T: NoteType> {
    pub notes: Seq<HistoryView<T>>,
    pub current_revision: Seq<(Seq<char>, Seq<char>)>,
}

impl<T: NoteType> View for NoteHistory<T> {
    type V = HistoryView<T>;

    open spec fn view(&self) -> HistoryView<T> {
        HistoryView { id: self.id@, revisions: self.revisions@.map_values(|n: Note<T>| n@) }
    }
}

impl View for CurrentRevision {
    type V = (Seq<char>, Seq<char>);

    open spec fn view(&self) -> (Seq<char>, Seq<char>) {
        (self.id@, self.revision@)
    }
}

impl<T: NoteType> View for StoreSnapshot<T> {
    type V = SnapshotView<T>;

    open spec fn view(&self) -> SnapshotView<T> {
        SnapshotView {
            notes: self.notes@.map_values(|h: NoteHistory<T>| h@),
            current_revision: self.current_revision@.map_values(|c: CurrentRevision| c@),
        }
    }
}

impl<T: NoteType> SnapshotView<T> {
    /// Whether the history at place `i` is that of note `id`.
    pub open spec fn holds_at(self, id: Seq<char>, i: int) -> bool {
        0 <= i < self.notes.len() && self.notes[i].id == id
    }

    /// Whether the snapshot holds a history of note `id`.
    pub open spec fn holds(self, id: Seq<char>) -> bool {
        exists|i: int| self.holds_at(id, i)
    }

    /// The place of the history of note `id`.
    pub open spec fn place(self, id: Seq<char>) -> int {
        choose|i: int| self.holds_at(id, i)
    }

    /// Whether the entry at place `c` names the current revision of note
    /// `id`.
    pub open spec fn marks_at(self, id: Seq<char>, c: int) -> bool {
        0 <= c < self.current_revision.len() && self.current_revision[c].0 == id
    }

    /// Whether the snapshot names a current revision of note `id`.
    pub open spec fn marks(self, id: Seq<char>) -> bool {
        exists|c: int| self.marks_at(id, c)
    }

    /// The place of the entry that names the current revision of note `id`.
    pub open spec fn mark(self, id: Seq<char>) -> int {
        choose|c: int| self.marks_at(id, c)
    }

    /// The store that the snapshot describes.
    pub open spec fn store(self) -> StoreView<T> {
        StoreView {
            notes: Map::new(
                |id: Seq<char>| self.holds(id),
                |id: Seq<char>| kept_all(self.notes[self.place(id)].revisions),
            ),
            current_revision: Map::new(
                |id: Seq<char>| self.marks(id),
                |id: Seq<char>| self.current_revision[self.mark(id)].1,
            ),
        }
    }

    /// Whether the snapshot describes a store: no note has two histories,
    /// every history has a revision and holds notes of its own identity
    /// only, every current revision that is named is the newest revision of
    /// a note that has a history, and the store described is well-formed.
    pub open spec fn valid(self) -> bool {
        &&& forall|i: int, j: int|
            0 <= i < j < self.notes.len() ==> (#[trigger] self.notes[i]).id != (
            #[trigger] self.notes[j]).id
        &&& forall|i: int| 0 <= i < self.notes.len() ==> (#[trigger] self.notes[i]).revisions.len() > 0
        &&& forall|i: int, k: int|
            0 <= i < self.notes.len() && 0 <= k < self.notes[i].revisions.len() ==> (
            #[trigger] self.notes[i].revisions[k]).id == self.notes[i].id
        &&& forall|c: int|
            0 <= c < self.current_revision.len() ==> self.holds(
                (#[trigger] self.current_revision[c]).0,
            ) && self.current_revision[c].1 == self.notes[self.place(
                self.current_revision[c].0,
            )].revisions.last().revision
        &&& self.store().wf()
    }

    /// Whether the snapshot is an image of the store `s`.
    pub open spec fn describes(self, s: StoreView<T>) -> bool {
        self.valid() && self.store() == s
    }

    /// What reading the snapshot back gives.
    pub open spec fn restored(self) -> Result<StoreView<T>, ErrorView> {
        if self.valid() {
            Ok(self.store())
        } else {
            Err(ErrorView::CorruptSnapshot)
        }
    }
}

/// Round trip: a snapshot of a store reads back as that store, so that every
/// locator is read in the restored store as it was in that store, note for
/// note and field for field.
pub proof fn law_round_trip<T: NoteType>(snapshot: SnapshotView<T>, s: StoreView<T>, loc: LocatorView)
    requires
        snapshot.describes(s),
    ensures
        snapshot.restored() == Ok::<StoreView<T>, ErrorView>(s),
        snapshot.restored()->Ok_0.read(loc) == s.read(loc),
        snapshot.restored()->Ok_0.revisions(loc) == s.revisions(loc),
        snapshot.restored()->Ok_0.current(loc) == s.current(loc),
{
}

} // verus!
