//! The ways in which an operation of a note store fails.
use vstd::prelude::*;
use crate::note::{NoteID, Revision};

verus! {

/// What an error says, over the texts of the identifiers.
pub enum ErrorView {
    NoteNotExist(Seq<char>),
    NoteDeleted(Seq<char>),
    NoteIDConflict(Seq<char>),
    RevisionNotExist(Seq<char>, Seq<char>),
    RevisionConflict(Seq<char>, Seq<char>),
    UpdateOldRevision(Seq<char>, Seq<char>),
    DeleteOldRevision(Seq<char>, Seq<char>),
    HasBranches(Seq<char>),
    HasReferences(Seq<char>),
    ExistingNext(Seq<char>, Seq<char>),
    CorruptSnapshot,
    Unsupported,
}

/// Why a note store refused an operation.
#[derive(Debug)]
pub enum NoteStoreError {
    /// No note of this identity was ever created.
    NoteNotExist(NoteID),
    /// The note has no current revision; a revision must be pinned to bring it
    /// back.
    NoteDeleted(NoteID),
    /// The identity that was drawn for a new note is already taken.
    NoteIDConflict(NoteID),
    /// The note has no such revision.
    RevisionNotExist(NoteID, Revision),
    /// The revision that was drawn for a new revision of the note is already
    /// taken.
    RevisionConflict(NoteID, Revision),
    /// An update was aimed at a revision that is not the newest one.
    UpdateOldRevision(NoteID, Revision),
    /// A deletion was aimed at a revision that is not the current one.
    DeleteOldRevision(NoteID, Revision),
    /// The note cannot be deleted while other notes branch from it.
    HasBranches(NoteID),
    /// The note cannot be deleted while other notes refer to it.
    HasReferences(NoteID),
    /// The first note already has the second as its successor.
    ExistingNext(NoteID, NoteID),
    /// A snapshot does not describe a store.
    CorruptSnapshot,
    /// The store does not offer this operation.
    Unsupported,
}

impl View for NoteStoreError {
    type V = ErrorView;

    open spec fn view(&self) -> ErrorView {
        match self {
            NoteStoreError::NoteNotExist(id) => ErrorView::NoteNotExist(id@),
            NoteStoreError::NoteDeleted(id) => ErrorView::NoteDeleted(id@),
            NoteStoreError::NoteIDConflict(id) => ErrorView::NoteIDConflict(id@),
            NoteStoreError::RevisionNotExist(id, rev) => ErrorView::RevisionNotExist(id@, rev@),
            NoteStoreError::RevisionConflict(id, rev) => ErrorView::RevisionConflict(id@, rev@),
            NoteStoreError::UpdateOldRevision(id, rev) => ErrorView::UpdateOldRevision(id@, rev@),
            NoteStoreError::DeleteOldRevision(id, rev) => ErrorView::DeleteOldRevision(id@, rev@),
            NoteStoreError::HasBranches(id) => ErrorView::HasBranches(id@),
            NoteStoreError::HasReferences(id) => ErrorView::HasReferences(id@),
            NoteStoreError::ExistingNext(id, next) => ErrorView::ExistingNext(id@, next@),
            NoteStoreError::CorruptSnapshot => ErrorView::CorruptSnapshot,
            NoteStoreError::Unsupported => ErrorView::Unsupported,
        }
    }
}

} // verus!
