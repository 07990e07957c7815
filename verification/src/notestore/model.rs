//! The mathematical model of a note store: two maps, and what each operation
//! of a store makes of them.
use vstd::prelude::*;
use crate::errors::ErrorView;
use crate::note::{LocatorView, NoteView};
use crate::notemetadata::{EditableView, MetadataView};
use crate::notetype::NoteType;
use crate::search::note_matches;

verus! {

/// What the store keeps of one revision. The identity is the key under which
/// the revision is kept; the references are those of the content.
pub struct RevisionView<T: NoteType> {
    pub title: Seq<char>,
    pub note_inner: T::V,
    pub revision: Seq<char>,
    pub parent: Option<Seq<char>>,
    pub prev: Option<Seq<char>>,
    pub metadata: MetadataView,
    pub created_at: u128,
    pub modified_at: u128,
}

/// What a store holds: for each identity the revisions of the note, oldest
/// first, and for each live note its current revision.
pub struct StoreView<T: NoteType> {
    pub notes: Map<Seq<char>, Seq<RevisionView<T>>>,
    pub current_revision: Map<Seq<char>, Seq<char>>,
}

/// What a new note or a new revision is made of, apart from the identifiers
/// and the time that are drawn for it.
pub struct DraftView<T: NoteType> {
    pub title: Seq<char>,
    pub note_inner: T::V,
    pub metadata: EditableView,
}

/// What an update changes: each part is replaced where it is `Some`.
pub struct PatchView<T: NoteType> {
    pub title: Option<Seq<char>>,
    pub note_inner: Option<T::V>,
    pub metadata: EditableView,
}

/// What a store keeps of a note: all but its identity, under which it is
/// kept, and the links that lead to it, which follow from the other notes.
pub open spec fn kept<T: NoteType>(n: NoteView<T>) -> RevisionView<T> {
    RevisionView {
        title: n.title,
        note_inner: n.note_inner,
        revision: n.revision,
        parent: n.parent,
        prev: n.prev,
        metadata: n.metadata,
        created_at: n.created_at,
        modified_at: n.modified_at,
    }
}

/// What a store keeps of the notes of a history.
pub open spec fn kept_all<T: NoteType>(revisions: Seq<NoteView<T>>) -> Seq<RevisionView<T>> {
    revisions.map_values(|n: NoteView<T>| kept(n))
}

impl<T: NoteType> StoreView<T> {
    /// The store that holds nothing.
    pub open spec fn empty() -> Self {
        StoreView { notes: Map::empty(), current_revision: Map::empty() }
    }

    /// Whether a note of this identity was ever created.
    pub open spec fn known(self, id: Seq<char>) -> bool {
        self.notes.dom().contains(id)
    }

    /// Whether the note has a current revision.
    pub open spec fn live(self, id: Seq<char>) -> bool {
        self.current_revision.dom().contains(id)
    }

    /// The newest revision of the note.
    pub open spec fn head(self, id: Seq<char>) -> RevisionView<T> {
        self.notes[id].last()
    }

    /// Whether revision `rev` of the note stands at place `k` of its history.
    pub open spec fn revision_at(self, id: Seq<char>, rev: Seq<char>, k: int) -> bool {
        0 <= k < self.notes[id].len() && self.notes[id][k].revision == rev
    }

    /// Whether the note has a revision `rev`.
    pub open spec fn has_revision(self, id: Seq<char>, rev: Seq<char>) -> bool {
        exists|k: int| self.revision_at(id, rev, k)
    }

    /// The place of revision `rev` in the note's history.
    pub open spec fn index_of(self, id: Seq<char>, rev: Seq<char>) -> int {
        choose|k: int| self.revision_at(id, rev, k)
    }

    /// Whether `child` is a live note that branches from `id`.
    pub open spec fn is_branch(self, id: Seq<char>, child: Seq<char>) -> bool {
        self.live(child) && self.head(child).parent == Some(id)
    }

    /// Whether `other` is a live note that follows `id` in a sequence.
    pub open spec fn is_next(self, id: Seq<char>, other: Seq<char>) -> bool {
        self.live(other) && self.head(other).prev == Some(id)
    }

    /// Whether `other` is a live note whose content refers to `id`.
    pub open spec fn is_referent(self, id: Seq<char>, other: Seq<char>) -> bool {
        self.live(other) && T::references(self.head(other).note_inner).contains(id)
    }

    /// The live notes that branch from `id`: the inverse of `parent` over the
    /// current revisions.
    pub open spec fn branches(self, id: Seq<char>) -> Set<Seq<char>> {
        Set::new(|child: Seq<char>| self.is_branch(id, child))
    }

    /// The live notes whose content refers to `id`: the inverse of
    /// `references` over the current revisions.
    pub open spec fn referents(self, id: Seq<char>) -> Set<Seq<char>> {
        Set::new(|other: Seq<char>| self.is_referent(id, other))
    }

    /// The live note that follows `id` in a sequence, if there is one.
    pub open spec fn next(self, id: Seq<char>) -> Option<Seq<char>> {
        if exists|other: Seq<char>| self.is_next(id, other) {
            Some(choose|other: Seq<char>| self.is_next(id, other))
        } else {
            None
        }
    }

    /// The note of identity `id` as its revision at place `k` has it, with the
    /// links that lead to it now.
    pub open spec fn note(self, id: Seq<char>, k: int) -> NoteView<T> {
        let r = self.notes[id][k];
        NoteView {
            title: r.title,
            note_inner: r.note_inner,
            id: id,
            revision: r.revision,
            parent: r.parent,
            branches: self.branches(id),
            prev: r.prev,
            next: self.next(id),
            references: T::references(r.note_inner),
            referents: self.referents(id),
            metadata: r.metadata,
            created_at: r.created_at,
            modified_at: r.modified_at,
        }
    }

    /// The place in the note's history that a locator points at, or why it
    /// points at none.
    pub open spec fn resolve(self, loc: LocatorView) -> Result<int, ErrorView> {
        let id = loc.id();
        if !self.known(id) {
            Err(ErrorView::NoteNotExist(id))
        } else {
            match loc {
                LocatorView::Current(_) => if self.live(id) {
                    Ok(self.notes[id].len() - 1)
                } else {
                    Err(ErrorView::NoteDeleted(id))
                },
                LocatorView::Specific(_, rev) => if self.has_revision(id, rev) {
                    Ok(self.index_of(id, rev))
                } else {
                    Err(ErrorView::RevisionNotExist(id, rev))
                },
            }
        }
    }

    /// Whether a locator that resolves to place `k` points at the newest
    /// revision of its note: the current one of a live note, the last live
    /// one of a deleted note.
    pub open spec fn at_head(self, loc: LocatorView, k: int) -> bool {
        k == self.notes[loc.id()].len() - 1
    }

    /// What reading a locator gives.
    pub open spec fn read(self, loc: LocatorView) -> Result<NoteView<T>, ErrorView> {
        match self.resolve(loc) {
            Ok(k) => Ok(self.note(loc.id(), k)),
            Err(e) => Err(e),
        }
    }

    /// The current revision of the note that a locator names: `None` for a
    /// deleted note.
    pub open spec fn current(self, loc: LocatorView) -> Result<Option<Seq<char>>, ErrorView> {
        let id = loc.id();
        if !self.known(id) {
            Err(ErrorView::NoteNotExist(id))
        } else if self.live(id) {
            Ok(Some(self.current_revision[id]))
        } else {
            Ok(None)
        }
    }

    /// Whether the note that a locator names is deleted.
    pub open spec fn deleted(self, loc: LocatorView) -> Result<bool, ErrorView> {
        let id = loc.id();
        if !self.known(id) {
            Err(ErrorView::NoteNotExist(id))
        } else {
            Ok(!self.live(id))
        }
    }

    /// Whether a locator points at the current revision of a live note.
    pub open spec fn points_at_current(self, loc: LocatorView) -> Result<bool, ErrorView> {
        let id = loc.id();
        if !self.known(id) {
            Err(ErrorView::NoteNotExist(id))
        } else {
            Ok(self.live(id) && match loc {
                LocatorView::Current(_) => true,
                LocatorView::Specific(_, rev) => rev == self.current_revision[id],
            })
        }
    }

    /// All revisions of the note that a locator names, oldest first.
    pub open spec fn revisions(self, loc: LocatorView) -> Result<Seq<NoteView<T>>, ErrorView> {
        let id = loc.id();
        if !self.known(id) {
            Err(ErrorView::NoteNotExist(id))
        } else {
            Ok(Seq::new(self.notes[id].len(), |k: int| self.note(id, k)))
        }
    }

    /// The store with a new note `id` whose only revision is `r`.
    pub open spec fn with_note(self, id: Seq<char>, r: RevisionView<T>) -> Self {
        StoreView {
            notes: self.notes.insert(id, seq![r]),
            current_revision: self.current_revision.insert(id, r.revision),
        }
    }

    /// The store with `r` as the newest and current revision of note `id`.
    pub open spec fn with_revision(self, id: Seq<char>, r: RevisionView<T>) -> Self {
        StoreView {
            notes: self.notes.insert(id, self.notes[id].push(r)),
            current_revision: self.current_revision.insert(id, r.revision),
        }
    }

    /// The store with note `id` deleted: its history stays.
    pub open spec fn without_current(self, id: Seq<char>) -> Self {
        StoreView { notes: self.notes, current_revision: self.current_revision.remove(id) }
    }

    /// The first revision of a note made of `draft` at time `now`.
    pub open spec fn first_revision(
        revision: Seq<char>,
        now: u128,
        draft: DraftView<T>,
        parent: Option<Seq<char>>,
        prev: Option<Seq<char>>,
    ) -> RevisionView<T> {
        RevisionView {
            title: draft.title,
            note_inner: draft.note_inner,
            revision: revision,
            parent: parent,
            prev: prev,
            metadata: MetadataView::empty().apply(draft.metadata),
            created_at: now,
            modified_at: now,
        }
    }

    /// The revision that follows `old` when `patch` is applied at time `now`:
    /// what the patch does not name is copied forward.
    pub open spec fn next_revision(
        old: RevisionView<T>,
        revision: Seq<char>,
        now: u128,
        patch: PatchView<T>,
    ) -> RevisionView<T> {
        RevisionView {
            title: match patch.title {
                Some(title) => title,
                None => old.title,
            },
            note_inner: match patch.note_inner {
                Some(content) => content,
                None => old.note_inner,
            },
            revision: revision,
            parent: old.parent,
            prev: old.prev,
            metadata: old.metadata.apply(patch.metadata),
            created_at: old.created_at,
            modified_at: now,
        }
    }

    /// The revision that follows `old` when its note takes the place of a
    /// deleted predecessor whose newest revision is `gone`: it inherits the
    /// predecessor's links.
    pub open spec fn relinked_revision(
        old: RevisionView<T>,
        gone: RevisionView<T>,
        revision: Seq<char>,
        now: u128,
    ) -> RevisionView<T> {
        RevisionView {
            title: old.title,
            note_inner: old.note_inner,
            revision: revision,
            parent: gone.parent,
            prev: gone.prev,
            metadata: old.metadata,
            created_at: old.created_at,
            modified_at: now,
        }
    }

    /// Creating a note with the identity `id` and the first revision
    /// `revision`, without links.
    pub open spec fn create(
        self,
        id: Seq<char>,
        revision: Seq<char>,
        now: u128,
        draft: DraftView<T>,
    ) -> Result<Self, ErrorView> {
        if self.known(id) {
            Err(ErrorView::NoteIDConflict(id))
        } else {
            Ok(self.with_note(id, Self::first_revision(revision, now, draft, None, None)))
        }
    }

    /// Creating a note that follows the live note `last` in a sequence.
    pub open spec fn append(
        self,
        last: Seq<char>,
        id: Seq<char>,
        revision: Seq<char>,
        now: u128,
        draft: DraftView<T>,
    ) -> Result<Self, ErrorView> {
        if !self.known(last) {
            Err(ErrorView::NoteNotExist(last))
        } else if !self.live(last) {
            Err(ErrorView::NoteDeleted(last))
        } else if self.next(last).is_some() {
            Err(ErrorView::ExistingNext(last, self.next(last).unwrap()))
        } else if self.known(id) {
            Err(ErrorView::NoteIDConflict(id))
        } else {
            Ok(self.with_note(id, Self::first_revision(revision, now, draft, None, Some(last))))
        }
    }

    /// Creating a note that branches from the note `parent`.
    pub open spec fn branch(
        self,
        parent: Seq<char>,
        id: Seq<char>,
        revision: Seq<char>,
        now: u128,
        draft: DraftView<T>,
    ) -> Result<Self, ErrorView> {
        if !self.known(parent) {
            Err(ErrorView::NoteNotExist(parent))
        } else if self.known(id) {
            Err(ErrorView::NoteIDConflict(id))
        } else {
            Ok(self.with_note(id, Self::first_revision(revision, now, draft, Some(parent), None)))
        }
    }

    /// Whether bringing the deleted note `id` back would give its predecessor
    /// a second successor.
    pub open spec fn place_taken(self, id: Seq<char>) -> bool {
        !self.live(id) && self.head(id).prev.is_some() && self.next(
            self.head(id).prev.unwrap(),
        ).is_some()
    }

    /// Updating the note that `loc` points at: the new revision `revision`
    /// becomes the newest and the current one. A deleted note comes back.
    pub open spec fn update(
        self,
        loc: LocatorView,
        revision: Seq<char>,
        now: u128,
        patch: PatchView<T>,
    ) -> Result<Self, ErrorView> {
        let id = loc.id();
        match self.resolve(loc) {
            Err(e) => Err(e),
            Ok(k) => if !self.at_head(loc, k) {
                Err(ErrorView::UpdateOldRevision(id, loc.revision().unwrap()))
            } else if self.has_revision(id, revision) {
                Err(ErrorView::RevisionConflict(id, revision))
            } else if self.place_taken(id) {
                let prev = self.head(id).prev.unwrap();
                Err(ErrorView::ExistingNext(prev, self.next(prev).unwrap()))
            } else {
                Ok(self.with_revision(id, Self::next_revision(self.head(id), revision, now, patch)))
            },
        }
    }

    /// Deleting the note that `loc` points at. Its successor, if it has one,
    /// gets the new revision `revision`, which inherits the deleted note's
    /// links.
    pub open spec fn delete(self, loc: LocatorView, revision: Seq<char>, now: u128) -> Result<
        Self,
        ErrorView,
    > {
        let id = loc.id();
        match self.resolve(loc) {
            Err(e) => Err(e),
            Ok(k) => if !(self.live(id) && self.at_head(loc, k)) {
                Err(ErrorView::DeleteOldRevision(id, loc.revision().unwrap()))
            } else if !(self.branches(id) === Set::empty()) {
                Err(ErrorView::HasBranches(id))
            } else if !(self.referents(id) === Set::empty()) {
                Err(ErrorView::HasReferences(id))
            } else {
                match self.next(id) {
                    None => Ok(self.without_current(id)),
                    Some(other) => if self.has_revision(other, revision) {
                        Err(ErrorView::RevisionConflict(other, revision))
                    } else {
                        Ok(
                            self.with_revision(
                                other,
                                Self::relinked_revision(
                                    self.head(other),
                                    self.head(id),
                                    revision,
                                    now,
                                ),
                            ).without_current(id),
                        )
                    },
                }
            },
        }
    }

    /// The note of identity `id` as its newest revision has it.
    pub open spec fn head_note(self, id: Seq<char>) -> NoteView<T> {
        self.note(id, self.notes[id].len() - 1)
    }

    /// Whether `id` is a live note whose current revision matches `query`.
    pub open spec fn hit(self, query: Seq<char>, id: Seq<char>) -> bool {
        self.live(id) && note_matches(
            query,
            self.head(id).title,
            T::text(self.head(id).note_inner),
        )
    }

    /// Whether `found` answers a search for `query`: it holds the current
    /// revision of every live note that matches, each of them once, the most
    /// recently modified first.
    pub open spec fn is_search_result(self, query: Seq<char>, found: Seq<NoteView<T>>) -> bool {
        &&& forall|i: int|
            0 <= i < found.len() ==> self.hit(query, (#[trigger] found[i]).id) && found[i]
                == self.head_note(found[i].id)
        &&& forall|id: Seq<char>| #[trigger]
            self.hit(query, id) ==> exists|i: int|
                0 <= i < found.len() && (#[trigger] found[i]).id == id
        &&& forall|i: int, j: int|
            0 <= i < j < found.len() ==> (#[trigger] found[i]).id != (#[trigger] found[j]).id
        &&& forall|i: int, j: int|
            0 <= i < j < found.len() ==> (#[trigger] found[i]).modified_at >= (
            #[trigger] found[j]).modified_at
    }

    /// The tags of the current revisions of all live notes.
    pub open spec fn tags(self) -> Set<Seq<char>> {
        Set::new(
            |tag: Seq<char>|
                exists|id: Seq<char>| self.live(id) && #[trigger] self.head(
                    id,
                ).metadata.tags.contains(tag),
        )
    }

    /// What holds of every store that the operations can reach.
    pub open spec fn wf(self) -> bool {
        &&& forall|id: Seq<char>| #[trigger] self.live(id) ==> self.known(id)
        &&& forall|id: Seq<char>| #[trigger] self.known(id) ==> self.notes[id].len() > 0
        &&& forall|id: Seq<char>, j: int, k: int|
            self.known(id) && 0 <= j < k < self.notes[id].len() ==> (
            #[trigger] self.notes[id][j]).revision != (#[trigger] self.notes[id][k]).revision
        &&& forall|id: Seq<char>| #[trigger]
            self.live(id) ==> self.current_revision[id] == self.head(id).revision
        &&& forall|id: Seq<char>, k: int|
            self.known(id) && 0 <= k < self.notes[id].len() ==> !({
                let r = #[trigger] self.notes[id][k];
                r.parent.is_some() && r.prev.is_some()
            })
        &&& forall|id: Seq<char>, a: Seq<char>, b: Seq<char>|
            #[trigger] self.is_next(id, a) && #[trigger] self.is_next(id, b) ==> a == b
    }
}

} // verus!
