//! What it means for a store to have done what the model says.
use vstd::prelude::*;
use crate::errors::{ErrorView, NoteStoreError};
use crate::note::{LocatorView, NoteLocator};
use crate::notestore::model::{DraftView, PatchView, StoreView};
use crate::notetype::NoteType;

verus! {

/// Whether a result and the store after an operation are what the model
/// gives: on success a locator that pins `revision` of `id` and the new store,
/// on failure the error and the store as it was.
pub open spec fn follows<T: NoteType>(
    expected: Result<StoreView<T>, ErrorView>,
    before: StoreView<T>,
    after: StoreView<T>,
    r: Result<NoteLocator, NoteStoreError>,
    id: Seq<char>,
    revision: Seq<char>,
) -> bool {
    match expected {
        Ok(s) => r matches Ok(loc) && loc@ == LocatorView::Specific(id, revision) && after == s,
        Err(e) => r matches Err(err) && err@ == e && after == before,
    }
}

/// Whether creating a note of `draft` under the drawn `id`, `revision` and
/// `now` leads from `before` to `after` with the result `r`.
pub open spec fn created<T: NoteType>(
    before: StoreView<T>,
    after: StoreView<T>,
    r: Result<NoteLocator, NoteStoreError>,
    draft: DraftView<T>,
    id: Seq<char>,
    revision: Seq<char>,
    now: u128,
) -> bool {
    follows(before.create(id, revision, now, draft), before, after, r, id, revision)
}

/// Whether appending a note of `draft` to `last` under the drawn `id`,
/// `revision` and `now` leads from `before` to `after` with the result `r`.
pub open spec fn appended<T: NoteType>(
    before: StoreView<T>,
    after: StoreView<T>,
    r: Result<NoteLocator, NoteStoreError>,
    last: Seq<char>,
    draft: DraftView<T>,
    id: Seq<char>,
    revision: Seq<char>,
    now: u128,
) -> bool {
    follows(before.append(last, id, revision, now, draft), before, after, r, id, revision)
}

/// Whether branching a note of `draft` from `parent` under the drawn `id`,
/// `revision` and `now` leads from `before` to `after` with the result `r`.
pub open spec fn branched<T: NoteType>(
    before: StoreView<T>,
    after: StoreView<T>,
    r: Result<NoteLocator, NoteStoreError>,
    parent: Seq<char>,
    draft: DraftView<T>,
    id: Seq<char>,
    revision: Seq<char>,
    now: u128,
) -> bool {
    follows(before.branch(parent, id, revision, now, draft), before, after, r, id, revision)
}

/// Whether updating the note at `loc` with `patch` under the drawn `revision`
/// and `now` leads from `before` to `after` with the result `r`.
pub open spec fn updated<T: NoteType>(
    before: StoreView<T>,
    after: StoreView<T>,
    r: Result<NoteLocator, NoteStoreError>,
    loc: LocatorView,
    patch: PatchView<T>,
    revision: Seq<char>,
    now: u128,
) -> bool {
    follows(before.update(loc, revision, now, patch), before, after, r, loc.id(), revision)
}

/// Whether deleting the note at `loc` under the drawn `revision` and `now`
/// leads from `before` to `after` with the result `r`.
pub open spec fn deleted<T: NoteType>(
    before: StoreView<T>,
    after: StoreView<T>,
    r: Result<(), NoteStoreError>,
    loc: LocatorView,
    revision: Seq<char>,
    now: u128,
) -> bool {
    match before.delete(loc, revision, now) {
        Ok(s) => r is Ok && after == s,
        Err(e) => r matches Err(err) && err@ == e && after == before,
    }
}

} // verus!
