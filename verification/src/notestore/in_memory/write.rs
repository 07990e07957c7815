//! The operations that change the in-memory store.
use vstd::prelude::*;
use crate::errors::{ErrorView, NoteStoreError};
use crate::fresh::{get_new_noteid, get_new_revision, get_now};
use crate::note::{NoteID, NoteLocator, Revision};
use crate::notemetadata::{EditableView, NoteMetadataEditable};
use crate::notestore::model::{kept, DraftView, PatchView};
use crate::notestore::outcome::{appended, branched, created, deleted, follows, updated};
use crate::notestore::preservation::{lemma_relink_wf, lemma_with_revision_wf};
use crate::notestore::revise::{content_view, drafted, relinked, revised, title_view};
use crate::notestore::rules::{
    check_append, check_delete, check_known, check_live, check_new_id, check_new_revision,
    check_update,
};
use crate::notetype::NoteType;
use super::{InMemoryStore, Record};

verus! {

impl<T: NoteType> InMemoryStore<T> {
    /// Creates a note with the identity `id` and the first revision
    /// `revision`, made at time `now`, without links. Fails, and changes
    /// nothing, where the identity is taken.
    pub fn new_note_with(
        &mut self,
        id: NoteID,
        revision: Revision,
        now: u128,
        title: String,
        note_inner: T,
        metadata: NoteMetadataEditable,
    ) -> (r: Result<NoteLocator, NoteStoreError>)
        ensures
            follows(
                old(self)@.create(
                    id@,
                    revision@,
                    now,
                    DraftView { title: title@, note_inner: note_inner@, metadata: metadata@ },
                ),
                old(self)@,
                final(self)@,
                r,
                id@,
                revision@,
            ),
            final(self)@.wf(),
    {
        proof {
            use_type_invariant(&*self);
        }
        if let Err(e) = check_new_id(&id, self.find(&id).is_some()) {
            return Err(e);
        }
        let loc = NoteLocator::Specific(id.clone(), revision.clone());
        let note = drafted(id.clone(), revision, now, title, note_inner, metadata, None, None);
        self.add_entry(id, Record::of(&note));
        proof {
            use_type_invariant(&*self);
        }
        Ok(loc)
    }

    /// Creates a note that follows the note `last` in a sequence. Fails, and
    /// changes nothing, where `last` has no current revision or has a
    /// successor already, or where the identity is taken.
    pub fn append_note_with(
        &mut self,
        last: &NoteID,
        id: NoteID,
        revision: Revision,
        now: u128,
        title: String,
        note_inner: T,
        metadata: NoteMetadataEditable,
    ) -> (r: Result<NoteLocator, NoteStoreError>)
        ensures
            follows(
                old(self)@.append(
                    last@,
                    id@,
                    revision@,
                    now,
                    DraftView { title: title@, note_inner: note_inner@, metadata: metadata@ },
                ),
                old(self)@,
                final(self)@,
                r,
                id@,
                revision@,
            ),
            final(self)@.wf(),
    {
        proof {
            use_type_invariant(&*self);
        }
        let place = self.find(last);
        let live = match place {
            Some(i) => {
                proof {
                    self.lemma_entry(last@);
                }
                self.entries[i].live
            },
            None => false,
        };
        if let Err(e) = check_live(last, place.is_some(), live) {
            return Err(e);
        }
        let (_, next, _) = self.incoming(last);
        if let Err(e) = check_append(last, &next) {
            return Err(e);
        }
        if let Err(e) = check_new_id(&id, self.find(&id).is_some()) {
            return Err(e);
        }
        let loc = NoteLocator::Specific(id.clone(), revision.clone());
        let note = drafted(
            id.clone(),
            revision,
            now,
            title,
            note_inner,
            metadata,
            None,
            Some(last.clone()),
        );
        self.add_entry(id, Record::of(&note));
        proof {
            use_type_invariant(&*self);
        }
        Ok(loc)
    }

    /// Creates a note that branches from the note `parent`. Fails, and
    /// changes nothing, where no note `parent` was ever created, or where the
    /// identity is taken.
    pub fn add_branch_with(
        &mut self,
        parent: &NoteID,
        id: NoteID,
        revision: Revision,
        now: u128,
        title: String,
        note_inner: T,
        metadata: NoteMetadataEditable,
    ) -> (r: Result<NoteLocator, NoteStoreError>)
        ensures
            follows(
                old(self)@.branch(
                    parent@,
                    id@,
                    revision@,
                    now,
                    DraftView { title: title@, note_inner: note_inner@, metadata: metadata@ },
                ),
                old(self)@,
                final(self)@,
                r,
                id@,
                revision@,
            ),
            final(self)@.wf(),
    {
        proof {
            use_type_invariant(&*self);
        }
        if let Err(e) = check_known(parent, self.find(parent).is_some()) {
            return Err(e);
        }
        if let Err(e) = check_new_id(&id, self.find(&id).is_some()) {
            return Err(e);
        }
        let loc = NoteLocator::Specific(id.clone(), revision.clone());
        let note = drafted(
            id.clone(),
            revision,
            now,
            title,
            note_inner,
            metadata,
            Some(parent.clone()),
            None,
        );
        self.add_entry(id, Record::of(&note));
        proof {
            use_type_invariant(&*self);
        }
        Ok(loc)
    }

    /// Gives the note that `loc` points at the new revision `revision`, made
    /// at time `now`, which becomes its current one: what `title`,
    /// `note_inner` and `metadata` do not name is copied forward. `loc` must
    /// point at the newest revision of the note; a deleted note comes back.
    /// Fails, and changes nothing, otherwise, and where the revision is taken
    /// or the place of a deleted note in its sequence has been taken.
    pub fn update_note_with(
        &mut self,
        loc: &NoteLocator,
        revision: Revision,
        now: u128,
        title: Option<String>,
        note_inner: Option<T>,
        metadata: NoteMetadataEditable,
    ) -> (r: Result<NoteLocator, NoteStoreError>)
        ensures
            follows(
                old(self)@.update(
                    loc@,
                    revision@,
                    now,
                    PatchView {
                        title: title_view(title),
                        note_inner: content_view(note_inner),
                        metadata: metadata@,
                    },
                ),
                old(self)@,
                final(self)@,
                r,
                loc@.id(),
                revision@,
            ),
            final(self)@.wf(),
    {
        proof {
            use_type_invariant(&*self);
        }
        let id = loc.get_id();
        let (i, k) = match self.locate(loc) {
            Ok(at) => at,
            Err(e) => {
                return Err(e);
            },
        };
        proof {
            self.lemma_entry(id@);
        }
        if let Err(e) = check_update(loc, k == self.entries[i].history.len() - 1) {
            return Err(e);
        }
        if let Err(e) = check_new_revision(id, &revision, self.find_revision(i, &revision).is_some()) {
            return Err(e);
        }
        let head = &self.entries[i].history[k];
        if !self.entries[i].live {
            if let Some(prev) = &head.prev {
                let (_, next, _) = self.incoming(prev);
                if let Err(e) = check_append(prev, &next) {
                    return Err(e);
                }
            }
        }
        let new_loc = NoteLocator::Specific(id.clone(), revision.clone());
        let old_note = self.assemble(i, k);
        let record = Record::of(&revised(&old_note, revision, now, title, note_inner, metadata));
        proof {
            assert(kept(old_note@) == self@.head(id@));
            lemma_with_revision_wf(self@, id@, record@);
        }
        self.add_revision(i, record, None);
        proof {
            use_type_invariant(&*self);
        }
        Ok(new_loc)
    }

    /// Deletes the note that `loc` points at: it loses its current revision
    /// and keeps its history. `loc` must point at the current revision of a
    /// live note from which no live note branches and to which no live note
    /// refers. The note that follows it, if there is one, gets the new
    /// revision `revision`, made at time `now`, which inherits the deleted
    /// note's parent and predecessor. Fails, and changes nothing, otherwise,
    /// and where the revision is taken.
    pub fn delete_note_with(&mut self, loc: &NoteLocator, revision: Revision, now: u128) -> (r:
        Result<(), NoteStoreError>)
        ensures
            deleted(old(self)@, final(self)@, r, loc@, revision@, now),
            final(self)@.wf(),
    {
        proof {
            use_type_invariant(&*self);
        }
        let id = loc.get_id();
        let (i, k) = match self.locate(loc) {
            Ok(at) => at,
            Err(e) => {
                return Err(e);
            },
        };
        proof {
            self.lemma_entry(id@);
        }
        let current = self.entries[i].live && k == self.entries[i].history.len() - 1;
        let (branches, next, referents) = self.incoming(id);
        if let Err(e) = check_delete(loc, current, &branches, &referents) {
            return Err(e);
        }
        match next {
            None => {
                self.retire(i);
            },
            Some(other) => {
                proof {
                    let chosen = choose|c: Seq<char>| self@.is_next(id@, c);
                    assert(self@.is_next(id@, chosen));
                }
                let j = match self.find(&other) {
                    Some(j) => j,
                    None => {
                        assert(false);
                        return Ok(());
                    },
                };
                proof {
                    self.lemma_entry(other@);
                }
                if let Err(e) = check_new_revision(
                    &other,
                    &revision,
                    self.find_revision(j, &revision).is_some(),
                ) {
                    return Err(e);
                }
                let successor = self.assemble(j, self.entries[j].history.len() - 1);
                let gone = self.assemble(i, k);
                let record = Record::of(&relinked(&successor, &gone, revision, now));
                proof {
                    assert(kept(successor@) == self@.head(other@));
                    assert(kept(gone@) == self@.head(id@));
                    lemma_relink_wf(self@, id@, other@, record@);
                }
                self.add_revision(j, record, Some(i));
            },
        }
        proof {
            use_type_invariant(&*self);
        }
        Ok(())
    }

    /// Creates a note without links, under a random identity and a random
    /// first revision, at the time of the clock: what
    /// [`Self::new_note_with`] does with the values drawn.
    pub fn new_note(&mut self, title: String, note_inner: T, metadata: NoteMetadataEditable) -> (r:
        Result<NoteLocator, NoteStoreError>)
        ensures
            exists|id: Seq<char>, revision: Seq<char>, now: u128| #[trigger]
                created(
                    old(self)@,
                    final(self)@,
                    r,
                    DraftView { title: title@, note_inner: note_inner@, metadata: metadata@ },
                    id,
                    revision,
                    now,
                ),
            final(self)@.wf(),
    {
        let id = get_new_noteid();
        let revision = get_new_revision();
        let now = get_now();
        let ghost draft = DraftView { title: title@, note_inner: note_inner@, metadata: metadata@ };
        let ghost before = self@;
        let r = self.new_note_with(id, revision, now, title, note_inner, metadata);
        assert(created(before, self@, r, draft, id@, revision@, now));
        r
    }

    /// Creates a note that follows the note `last` in a sequence, under a
    /// random identity and a random first revision, at the time of the clock:
    /// what [`Self::append_note_with`] does with the values drawn.
    pub fn append_note(
        &mut self,
        last: &NoteID,
        title: String,
        note_inner: T,
        metadata: NoteMetadataEditable,
    ) -> (r: Result<NoteLocator, NoteStoreError>)
        ensures
            exists|id: Seq<char>, revision: Seq<char>, now: u128| #[trigger]
                appended(
                    old(self)@,
                    final(self)@,
                    r,
                    last@,
                    DraftView { title: title@, note_inner: note_inner@, metadata: metadata@ },
                    id,
                    revision,
                    now,
                ),
            final(self)@.wf(),
    {
        let id = get_new_noteid();
        let revision = get_new_revision();
        let now = get_now();
        let ghost draft = DraftView { title: title@, note_inner: note_inner@, metadata: metadata@ };
        let ghost before = self@;
        let r = self.append_note_with(last, id, revision, now, title, note_inner, metadata);
        assert(appended(before, self@, r, last@, draft, id@, revision@, now));
        r
    }

    /// Creates a note that branches from the note `parent`, under a random
    /// identity and a random first revision, at the time of the clock: what
    /// [`Self::add_branch_with`] does with the values drawn.
    pub fn add_branch(
        &mut self,
        parent: &NoteID,
        title: String,
        note_inner: T,
        metadata: NoteMetadataEditable,
    ) -> (r: Result<NoteLocator, NoteStoreError>)
        ensures
            exists|id: Seq<char>, revision: Seq<char>, now: u128| #[trigger]
                branched(
                    old(self)@,
                    final(self)@,
                    r,
                    parent@,
                    DraftView { title: title@, note_inner: note_inner@, metadata: metadata@ },
                    id,
                    revision,
                    now,
                ),
            final(self)@.wf(),
    {
        let id = get_new_noteid();
        let revision = get_new_revision();
        let now = get_now();
        let ghost draft = DraftView { title: title@, note_inner: note_inner@, metadata: metadata@ };
        let ghost before = self@;
        let r = self.add_branch_with(parent, id, revision, now, title, note_inner, metadata);
        assert(branched(before, self@, r, parent@, draft, id@, revision@, now));
        r
    }

    /// Updates the note that `loc` points at, under a random new revision, at
    /// the time of the clock: what [`Self::update_note_with`] does with the
    /// values drawn.
    pub fn update_note(
        &mut self,
        loc: &NoteLocator,
        title: Option<String>,
        note_inner: Option<T>,
        metadata: NoteMetadataEditable,
    ) -> (r: Result<NoteLocator, NoteStoreError>)
        ensures
            exists|revision: Seq<char>, now: u128| #[trigger]
                updated(
                    old(self)@,
                    final(self)@,
                    r,
                    loc@,
                    PatchView {
                        title: title_view(title),
                        note_inner: content_view(note_inner),
                        metadata: metadata@,
                    },
                    revision,
                    now,
                ),
            final(self)@.wf(),
    {
        let revision = get_new_revision();
        let now = get_now();
        let ghost patch = PatchView {
            title: title_view(title),
            note_inner: content_view(note_inner),
            metadata: metadata@,
        };
        let ghost before = self@;
        let r = self.update_note_with(loc, revision, now, title, note_inner, metadata);
        assert(updated(before, self@, r, loc@, patch, revision@, now));
        r
    }

    /// Replaces the content of the note that `loc` points at and keeps the
    /// rest: [`Self::update_note`] with nothing but the content named.
    pub fn update_note_content(&mut self, loc: &NoteLocator, note_inner: T) -> (r: Result<
        NoteLocator,
        NoteStoreError,
    >)
        ensures
            exists|revision: Seq<char>, now: u128| #[trigger]
                updated(
                    old(self)@,
                    final(self)@,
                    r,
                    loc@,
                    PatchView {
                        title: None,
                        note_inner: Some(note_inner@),
                        metadata: EditableView { tags: None, custom_metadata: None },
                    },
                    revision,
                    now,
                ),
            final(self)@.wf(),
    {
        self.update_note(loc, None, Some(note_inner), NoteMetadataEditable::unchanged())
    }

    /// Deletes the note that `loc` points at; the revision that its successor
    /// gets is random and made at the time of the clock: what
    /// [`Self::delete_note_with`] does with the values drawn.
    pub fn delete_note(&mut self, loc: &NoteLocator) -> (r: Result<(), NoteStoreError>)
        ensures
            exists|revision: Seq<char>, now: u128| #[trigger]
                deleted(old(self)@, final(self)@, r, loc@, revision, now),
            final(self)@.wf(),
    {
        let revision = get_new_revision();
        let now = get_now();
        let ghost before = self@;
        let r = self.delete_note_with(loc, revision, now);
        assert(deleted(before, self@, r, loc@, revision@, now));
        r
    }

    /// Splitting a note in two is not offered: always fails, and changes
    /// nothing.
    pub fn split_note<F>(&mut self, _note: &NoteLocator, _op: F) -> (r: Result<
        NoteLocator,
        NoteStoreError,
    >) where F: FnOnce(T) -> (T, T)
        ensures
            r matches Err(e) && e@ == ErrorView::Unsupported,
            final(self)@ == old(self)@,
    {
        Err(NoteStoreError::Unsupported)
    }

    /// Merging two notes into one is not offered: always fails, and changes
    /// nothing.
    pub fn merge_note<F>(&mut self, _note1: &NoteLocator, _note2: &NoteLocator, _op: F) -> (r: Result<
        NoteLocator,
        NoteStoreError,
    >) where F: FnOnce(T, T) -> T
        ensures
            r matches Err(e) && e@ == ErrorView::Unsupported,
            final(self)@ == old(self)@,
    {
        Err(NoteStoreError::Unsupported)
    }
}

} // verus!
