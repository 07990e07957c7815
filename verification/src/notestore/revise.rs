//! How a note is made and how the next revision of a note is made from the
//! one before: the same for every store.
use vstd::prelude::*;
use crate::idset::{
    clone_id_option, clone_ids, distinct_ids, id_option, id_seq, id_set, lemma_empty_to_set,
};
use crate::note::{Note, NoteID, Revision};
use crate::notemetadata::{NoteMetadata, NoteMetadataEditable};
use crate::notestore::model::{kept, DraftView, PatchView, StoreView};
use crate::notestore::rules::inherited_links;
use crate::notetype::NoteType;

verus! {

/// The view of an optional content.
pub open spec fn content_view<T: NoteType>(content: Option<T>) -> Option<T::V> {
    match content {
        Some(c) => Some(c@),
        None => None,
    }
}

/// The view of an optional title.
pub open spec fn title_view(title: Option<String>) -> Option<Seq<char>> {
    match title {
        Some(t) => Some(t@),
        None => None,
    }
}

/// Whether a note names the references of its content, each of them once.
pub open spec fn references_kept<T: NoteType>(note: Note<T>) -> bool {
    &&& id_set(note.references@) == T::references(note.note_inner@)
    &&& id_seq(note.references@).no_duplicates()
}

/// The first revision of a note, made at time `now`: both of its times are
/// `now`, its metadata is what the patch gives to a note without any. No
/// link leads to it yet.
pub fn drafted<T: NoteType>(
    id: NoteID,
    revision: Revision,
    now: u128,
    title: String,
    note_inner: T,
    metadata: NoteMetadataEditable,
    parent: Option<NoteID>,
    prev: Option<NoteID>,
) -> (note: Note<T>)
    ensures
        kept(note@) == StoreView::<T>::first_revision(
            revision@,
            now,
            DraftView { title: title@, note_inner: note_inner@, metadata: metadata@ },
            id_option(parent),
            id_option(prev),
        ),
        note@.id == id@,
        note@.branches == Set::<Seq<char>>::empty(),
        note@.next == None::<Seq<char>>,
        note@.referents == Set::<Seq<char>>::empty(),
        references_kept(note),
{
    let references = distinct_ids(&note_inner.get_references());
    let branches: Vec<NoteID> = Vec::new();
    let referents: Vec<NoteID> = Vec::new();
    proof {
        lemma_empty_to_set::<Seq<char>>();
        assert(id_seq(branches@) =~= Seq::empty());
        assert(id_seq(referents@) =~= Seq::empty());
    }
    Note {
        title,
        note_inner,
        id,
        revision,
        parent,
        branches,
        prev,
        next: None,
        references,
        referents,
        metadata: NoteMetadata::from_editable(metadata),
        created_at: now,
        modified_at: now,
    }
}

/// The revision that follows `old` when a patch is applied at time `now`:
/// the title, the content and the parts of the metadata that the patch names
/// are replaced, the rest is copied forward, the references are those of the
/// content that results, and the time of modification is `now`.
pub fn revised<T: NoteType>(
    old: &Note<T>,
    revision: Revision,
    now: u128,
    title: Option<String>,
    note_inner: Option<T>,
    metadata: NoteMetadataEditable,
) -> (note: Note<T>)
    ensures
        kept(note@) == StoreView::<T>::next_revision(
            kept(old@),
            revision@,
            now,
            PatchView {
                title: title_view(title),
                note_inner: content_view(note_inner),
                metadata: metadata@,
            },
        ),
        note@.id == old@.id,
        note@.branches == old@.branches,
        note@.next == old@.next,
        note@.referents == old@.referents,
        references_kept(note),
{
    let title = match title {
        Some(t) => t,
        None => old.title.clone(),
    };
    let note_inner = match note_inner {
        Some(content) => content,
        None => old.note_inner.duplicate(),
    };
    let references = distinct_ids(&note_inner.get_references());
    Note {
        title,
        note_inner,
        id: old.id.clone(),
        revision,
        parent: clone_id_option(&old.parent),
        branches: clone_ids(&old.branches),
        prev: clone_id_option(&old.prev),
        next: clone_id_option(&old.next),
        references,
        referents: clone_ids(&old.referents),
        metadata: old.metadata.apply_editable(metadata),
        created_at: old.created_at,
        modified_at: now,
    }
}

/// The revision that follows `old` when its note takes the place of the
/// deleted note `gone`: it takes over the parent and the predecessor of
/// `gone` and keeps the rest; the time of modification is `now`.
pub fn relinked<T: NoteType>(old: &Note<T>, gone: &Note<T>, revision: Revision, now: u128) -> (note:
    Note<T>)
    ensures
        kept(note@) == StoreView::<T>::relinked_revision(kept(old@), kept(gone@), revision@, now),
        note@.id == old@.id,
        note@.branches == old@.branches,
        note@.next == old@.next,
        note@.referents == old@.referents,
        references_kept(note),
{
    let note_inner = old.note_inner.duplicate();
    let references = distinct_ids(&note_inner.get_references());
    let (parent, prev) = inherited_links(&gone.parent, &gone.prev);
    Note {
        title: old.title.clone(),
        note_inner,
        id: old.id.clone(),
        revision,
        parent,
        branches: clone_ids(&old.branches),
        prev,
        next: clone_id_option(&old.next),
        references,
        referents: clone_ids(&old.referents),
        metadata: old.metadata.clone(),
        created_at: old.created_at,
        modified_at: now,
    }
}

} // verus!
