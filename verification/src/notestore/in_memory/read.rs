//! Reading notes out of the in-memory store.
use vstd::prelude::*;
use crate::errors::NoteStoreError;
use crate::idset::{
    clone_id_option, clone_ids, contains_id, id_option, id_seq, id_set, lemma_empty_to_set,
    lemma_id_set_push, option_is_id,
};
use crate::note::{Note, NoteID, NoteLocator, Revision};
use crate::notestore::laws::law_exclusive;
use crate::notestore::rules::check_resolves;
use crate::notetype::NoteType;
use super::{record_ok, InMemoryStore};

verus! {

impl<T: NoteType> InMemoryStore<T> {
    /// The live notes whose links lead to `id`: those that branch from it, the
    /// one that follows it, and those that refer to it.
    pub(super) fn incoming(&self, id: &NoteID) -> (links: (Vec<NoteID>, Option<NoteID>, Vec<NoteID>))
        ensures
            id_set(links.0@) == self@.branches(id@),
            id_seq(links.0@).no_duplicates(),
            id_option(links.1) == self@.next(id@),
            id_set(links.2@) == self@.referents(id@),
            id_seq(links.2@).no_duplicates(),
    {
        let mut branches: Vec<NoteID> = Vec::new();
        let mut next: Option<NoteID> = None;
        let mut referents: Vec<NoteID> = Vec::new();
        let mut i: usize = 0;
        proof {
            use_type_invariant(self);
            lemma_empty_to_set::<Seq<char>>();
            assert(id_seq(branches@) =~= Seq::empty());
            assert(id_seq(referents@) =~= Seq::empty());
        }
        while i < self.entries.len()
            invariant
                self.inv(),
                i <= self.entries@.len(),
                forall|c: Seq<char>|
                    id_set(branches@).contains(c) <==> self@.known(c) && self.index@[c] < i
                        && self.branch_at(self.index@[c], id@),
                id_seq(branches@).no_duplicates(),
                forall|c: Seq<char>|
                    id_set(referents@).contains(c) <==> self@.known(c) && self.index@[c] < i
                        && self.referent_at(self.index@[c], id@),
                id_seq(referents@).no_duplicates(),
                match next {
                    Some(n) => self@.known(n@) && self.index@[n@] < i && self.next_at(
                        self.index@[n@],
                        id@,
                    ),
                    None => forall|c: Seq<char>|
                        self@.known(c) && self.index@[c] < i ==> !self.next_at(
                            self.index@[c],
                            id@,
                        ),
                },
            decreases self.entries@.len() - i,
        {
            let entry = &self.entries[i];
            let ghost c = entry.id@;
            assert(self.entries@[i as int].id@ == c);
            assert(self@.known(c) && self.index@[c] == i);
            if entry.live {
                let head = &entry.history[entry.history.len() - 1];
                assert(*head == self.entries@[i as int].history@.last());
                if option_is_id(&head.parent, id) {
                    let child = entry.id.clone();
                    proof {
                        lemma_id_set_push(branches@, child);
                        assert(!id_set(branches@).contains(c));
                        assert(!id_seq(branches@).contains(c));
                    }
                    branches.push(child);
                }
                if next.is_none() && option_is_id(&head.prev, id) {
                    next = Some(entry.id.clone());
                }
                if contains_id(&head.references, id) {
                    let other = entry.id.clone();
                    proof {
                        lemma_id_set_push(referents@, other);
                        assert(!id_set(referents@).contains(c));
                        assert(!id_seq(referents@).contains(c));
                    }
                    referents.push(other);
                }
            }
            i += 1;
        }
        proof {
            assert forall|c: Seq<char>| id_set(branches@).contains(c) == self@.branches(
                id@,
            ).contains(c) by {
                if self@.known(c) {
                    self.lemma_entry(c);
                }
            }
            assert(id_set(branches@) =~= self@.branches(id@));
            assert forall|c: Seq<char>| id_set(referents@).contains(c) == self@.referents(
                id@,
            ).contains(c) by {
                if self@.known(c) {
                    self.lemma_entry(c);
                }
            }
            assert(id_set(referents@) =~= self@.referents(id@));
            if next is Some {
                let n = next.unwrap()@;
                self.lemma_entry(n);
                assert(self@.is_next(id@, n));
                let chosen = choose|other: Seq<char>| self@.is_next(id@, other);
                assert(self@.is_next(id@, chosen));
            } else {
                assert forall|c: Seq<char>| !self@.is_next(id@, c) by {
                    if self@.known(c) {
                        self.lemma_entry(c);
                    }
                }
            }
        }
        (branches, next, referents)
    }

    /// The place of revision `rev` in the history of the entry at place `i`.
    pub(super) fn find_revision(&self, i: usize, rev: &Revision) -> (place: Option<usize>)
        requires
            i < self.entries@.len(),
        ensures
            match place {
                Some(k) => self@.revision_at(self.entries@[i as int].id@, rev@, k as int)
                    && self@.has_revision(self.entries@[i as int].id@, rev@) && self@.index_of(
                    self.entries@[i as int].id@,
                    rev@,
                ) == k,
                None => !self@.has_revision(self.entries@[i as int].id@, rev@),
            },
    {
        let history = &self.entries[i].history;
        let ghost id = self.entries@[i as int].id@;
        let mut k: usize = 0;
        while k < history.len()
            invariant
                i < self.entries@.len(),
                id == self.entries@[i as int].id@,
                *history == self.entries@[i as int].history,
                k <= history@.len(),
                forall|j: int| 0 <= j < k ==> (#[trigger] history@[j]).revision@ != rev@,
            decreases history@.len() - k,
        {
            if history[k].revision == *rev {
                proof {
                    use_type_invariant(self);
                    self.lemma_place(i as int);
                    self.lemma_entry(id);
                    assert(self@.notes[id][k as int] == history@[k as int]@);
                    assert(self@.revision_at(id, rev@, k as int));
                    let chosen = self@.index_of(id, rev@);
                    assert(self@.revision_at(id, rev@, chosen));
                    assert(chosen == k) by {
                        if chosen < k {
                            assert(self@.notes[id][chosen].revision != self@.notes[id][k as int].revision);
                        }
                        if chosen > k {
                            assert(self@.notes[id][k as int].revision != self@.notes[id][chosen].revision);
                        }
                    }
                }
                return Some(k);
            }
            k += 1;
        }
        proof {
            use_type_invariant(self);
            self.lemma_place(i as int);
            self.lemma_entry(id);
            assert forall|j: int| !self@.revision_at(id, rev@, j) by {
                if 0 <= j < history@.len() {
                    assert(self@.notes[id][j] == history@[j]@);
                }
            }
        }
        None
    }

    /// The note that the entry at place `i` holds as revision `k`, with the
    /// links that lead to it now.
    pub(super) fn assemble(&self, i: usize, k: usize) -> (note: Note<T>)
        requires
            i < self.entries@.len(),
            k < self.entries@[i as int].history@.len(),
        ensures
            note@ == self@.note(self.entries@[i as int].id@, k as int),
            id_seq(note.branches@).no_duplicates(),
            id_seq(note.references@).no_duplicates(),
            id_seq(note.referents@).no_duplicates(),
    {
        let entry = &self.entries[i];
        let record = &entry.history[k];
        let (branches, next, referents) = self.incoming(&entry.id);
        proof {
            use_type_invariant(self);
            self.lemma_place(i as int);
            self.lemma_entry(entry.id@);
            assert(record_ok(self.entries@[i as int].history@[k as int]));
            assert(self@.notes[entry.id@][k as int] == record@);
        }
        Note {
            title: record.title.clone(),
            note_inner: record.note_inner.duplicate(),
            id: entry.id.clone(),
            revision: record.revision.clone(),
            parent: clone_id_option(&record.parent),
            branches,
            prev: clone_id_option(&record.prev),
            next,
            references: clone_ids(&record.references),
            referents,
            metadata: record.metadata.clone(),
            created_at: record.created_at,
            modified_at: record.modified_at,
        }
    }

    /// Whether the note that `loc` names is deleted: it has revisions, but
    /// none of them is current.
    pub fn is_deleted(&self, loc: &NoteLocator) -> (r: Result<bool, NoteStoreError>)
        ensures
            match self@.deleted(loc@) {
                Ok(deleted) => r == Ok::<bool, NoteStoreError>(deleted),
                Err(e) => r is Err && r->Err_0@ == e,
            },
    {
        let id = loc.get_id();
        match self.find(id) {
            Some(i) => {
                proof {
                    use_type_invariant(self);
                    self.lemma_entry(id@);
                }
                Ok(!self.entries[i].live)
            },
            None => Err(NoteStoreError::NoteNotExist(id.clone())),
        }
    }

    /// Whether `loc` points at the current revision of a live note.
    pub fn is_current(&self, loc: &NoteLocator) -> (r: Result<bool, NoteStoreError>)
        ensures
            match self@.points_at_current(loc@) {
                Ok(current) => r == Ok::<bool, NoteStoreError>(current),
                Err(e) => r is Err && r->Err_0@ == e,
            },
    {
        let (id, rev) = loc.unpack();
        match self.find(id) {
            Some(i) => {
                proof {
                    use_type_invariant(self);
                    self.lemma_entry(id@);
                }
                let entry = &self.entries[i];
                if !entry.live {
                    Ok(false)
                } else {
                    match rev {
                        Some(r) => Ok(entry.history[entry.history.len() - 1].revision == *r),
                        None => Ok(true),
                    }
                }
            },
            None => Err(NoteStoreError::NoteNotExist(id.clone())),
        }
    }

    /// The current revision of the note that `loc` names; `None` where the
    /// note is deleted.
    pub fn get_current_revision(&self, loc: &NoteLocator) -> (r: Result<
        Option<Revision>,
        NoteStoreError,
    >)
        ensures
            match self@.current(loc@) {
                Ok(Some(rev)) => r matches Ok(Some(found)) && found@ == rev,
                Ok(None) => r matches Ok(None),
                Err(e) => r is Err && r->Err_0@ == e,
            },
    {
        let id = loc.get_id();
        match self.find(id) {
            Some(i) => {
                proof {
                    use_type_invariant(self);
                    self.lemma_entry(id@);
                }
                let entry = &self.entries[i];
                if entry.live {
                    Ok(Some(entry.history[entry.history.len() - 1].revision.clone()))
                } else {
                    Ok(None)
                }
            },
            None => Err(NoteStoreError::NoteNotExist(id.clone())),
        }
    }

    /// The place of the entry and of the revision that `loc` points at.
    pub(super) fn locate(&self, loc: &NoteLocator) -> (r: Result<(usize, usize), NoteStoreError>)
        ensures
            match self@.resolve(loc@) {
                Ok(k) => r matches Ok(at) && at.0 < self.entries@.len() && self.index@[loc@.id()]
                    == at.0 && self.entries@[at.0 as int].id@ == loc@.id() && at.1 == k && at.1
                    < self.entries@[at.0 as int].history@.len(),
                Err(e) => r is Err && r->Err_0@ == e,
            },
    {
        let (id, rev) = loc.unpack();
        let i = match self.find(id) {
            Some(i) => i,
            None => {
                return Err(NoteStoreError::NoteNotExist(id.clone()));
            },
        };
        proof {
            use_type_invariant(self);
            self.lemma_entry(id@);
        }
        let live = self.entries[i].live;
        let place = match rev {
            Some(r) => self.find_revision(i, r),
            None => None,
        };
        match check_resolves(loc, true, live, place.is_some()) {
            Err(e) => Err(e),
            Ok(_) => match place {
                Some(k) => Ok((i, k)),
                None => Ok((i, self.entries[i].history.len() - 1)),
            },
        }
    }

    /// The note at the revision that `loc` points at: the current one, or the
    /// one that it pins. The links that lead to the note are those of now.
    pub fn get_note(&self, loc: &NoteLocator) -> (r: Result<Note<T>, NoteStoreError>)
        ensures
            match self@.read(loc@) {
                Ok(note) => r matches Ok(found) && found@ == note && id_seq(
                    found.branches@,
                ).no_duplicates() && id_seq(found.references@).no_duplicates() && id_seq(
                    found.referents@,
                ).no_duplicates() && !(found.parent.is_some() && found.prev.is_some()),
                Err(e) => r is Err && r->Err_0@ == e,
            },
    {
        proof {
            use_type_invariant(self);
            if self@.read(loc@) is Ok {
                law_exclusive(self@, loc@);
            }
        }
        match self.locate(loc) {
            Ok((i, k)) => Ok(self.assemble(i, k)),
            Err(e) => Err(e),
        }
    }

    /// All revisions of the note that `loc` names, oldest first.
    pub fn get_revisions(&self, loc: &NoteLocator) -> (r: Result<Vec<Note<T>>, NoteStoreError>)
        ensures
            match self@.revisions(loc@) {
                Ok(notes) => r matches Ok(found) && found@.map_values(|n: Note<T>| n@) == notes,
                Err(e) => r is Err && r->Err_0@ == e,
            },
    {
        let id = loc.get_id();
        match self.find(id) {
            Some(i) => {
                let mut found: Vec<Note<T>> = Vec::new();
                let mut k: usize = 0;
                while k < self.entries[i].history.len()
                    invariant
                        i < self.entries@.len(),
                        self.entries@[i as int].id@ == id@,
                        k <= self.entries@[i as int].history@.len(),
                        found@.len() == k,
                        forall|j: int| 0 <= j < k ==> (#[trigger] found@[j])@ == self@.note(id@, j),
                    decreases self.entries@[i as int].history@.len() - k,
                {
                    found.push(self.assemble(i, k));
                    k += 1;
                }
                proof {
                    use_type_invariant(self);
                    self.lemma_entry(id@);
                    assert(found@.map_values(|n: Note<T>| n@) =~= self@.revisions(loc@)->Ok_0);
                }
                Ok(found)
            },
            None => Err(NoteStoreError::NoteNotExist(id.clone())),
        }
    }
}

} // verus!
