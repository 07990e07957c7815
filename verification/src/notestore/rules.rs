//! The rules that every store applies before it changes anything, whatever
//! keeps its notes. Each takes what the store has read about a note and says
//! whether the operation may go on.
use vstd::prelude::*;
use crate::errors::{ErrorView, NoteStoreError};
use crate::idset::{clone_id_option, id_option, id_seq, id_set, lemma_empty_to_set};
use crate::note::{LocatorView, NoteID, NoteLocator, Revision};
use crate::notestore::laws::{lemma_current_resolves, lemma_resolve};
use crate::notestore::model::StoreView;
use crate::notetype::NoteType;

verus! {

/// Why a locator does not resolve: no note of its identity was ever
/// created; or it points at the current revision of a note that has none;
/// or it pins a revision that the note does not have.
pub open spec fn resolve_refusal(
    loc: LocatorView,
    known: bool,
    live: bool,
    has_revision: bool,
) -> Option<ErrorView> {
    if !known {
        Some(ErrorView::NoteNotExist(loc.id()))
    } else {
        match loc {
            LocatorView::Current(id) => if live {
                None
            } else {
                Some(ErrorView::NoteDeleted(id))
            },
            LocatorView::Specific(id, rev) => if has_revision {
                None
            } else {
                Some(ErrorView::RevisionNotExist(id, rev))
            },
        }
    }
}

/// Why a note cannot follow or be read through the identity `id`: no note
/// of that identity was ever created, or the note has no current revision.
pub open spec fn live_refusal(id: Seq<char>, known: bool, live: bool) -> Option<ErrorView> {
    if !known {
        Some(ErrorView::NoteNotExist(id))
    } else if !live {
        Some(ErrorView::NoteDeleted(id))
    } else {
        None
    }
}

/// Why an update through `loc` is refused where `loc` does not point at the
/// newest revision of its note.
pub open spec fn update_refusal(loc: LocatorView, newest: bool) -> Option<ErrorView> {
    match loc {
        LocatorView::Specific(id, rev) if !newest => Some(ErrorView::UpdateOldRevision(id, rev)),
        _ => None,
    }
}

/// Why a deletion through `loc` is refused: `loc` does not point at the
/// current revision of a live note, or notes branch from the note, or notes
/// refer to it. The first reason that holds, in this order, is given.
pub open spec fn delete_refusal(
    loc: LocatorView,
    current: bool,
    branches: Set<Seq<char>>,
    referents: Set<Seq<char>>,
) -> Option<ErrorView> {
    if !current {
        match loc {
            LocatorView::Specific(id, rev) => Some(ErrorView::DeleteOldRevision(id, rev)),
            LocatorView::Current(id) => Some(ErrorView::NoteDeleted(id)),
        }
    } else if !(branches === Set::empty()) {
        Some(ErrorView::HasBranches(loc.id()))
    } else if !(referents === Set::empty()) {
        Some(ErrorView::HasReferences(loc.id()))
    } else {
        None
    }
}

/// Why a note cannot be appended to `last`: `last` has a successor.
pub open spec fn append_refusal(last: Seq<char>, next: Option<Seq<char>>) -> Option<ErrorView> {
    match next {
        Some(n) => Some(ErrorView::ExistingNext(last, n)),
        None => None,
    }
}

/// Whether a result is the refusal that a rule gives, or `Ok` where it gives
/// none.
pub open spec fn refuses(r: Result<(), NoteStoreError>, refusal: Option<ErrorView>) -> bool {
    match refusal {
        Some(e) => r matches Err(err) && err@ == e,
        None => r is Ok,
    }
}

/// A vector of identities is empty exactly if its set is.
pub proof fn lemma_ids_empty(ids: Seq<NoteID>)
    ensures
        (ids.len() == 0) == (id_set(ids) === Set::empty()),
{
    if ids.len() == 0 {
        lemma_empty_to_set::<Seq<char>>();
        assert(id_seq(ids) =~= Seq::empty());
    } else {
        assert(id_seq(ids)[0] == ids[0]@);
        assert(id_set(ids).contains(ids[0]@));
    }
}

/// Whether `loc` resolves. `known` says whether a note of its identity was
/// ever created, `live` whether that note has a current revision, and
/// `has_revision` whether it has the revision that `loc` pins.
pub fn check_resolves(loc: &NoteLocator, known: bool, live: bool, has_revision: bool) -> (r: Result<
    (),
    NoteStoreError,
>)
    ensures
        refuses(r, resolve_refusal(loc@, known, live, has_revision)),
{
    if !known {
        return Err(NoteStoreError::NoteNotExist(loc.get_id().clone()));
    }
    match loc {
        NoteLocator::Current(id) => {
            if live {
                Ok(())
            } else {
                Err(NoteStoreError::NoteDeleted(id.clone()))
            }
        },
        NoteLocator::Specific(id, rev) => {
            if has_revision {
                Ok(())
            } else {
                Err(NoteStoreError::RevisionNotExist(id.clone(), rev.clone()))
            }
        },
    }
}

/// Whether a note of the identity `id` was ever created.
pub fn check_known(id: &NoteID, known: bool) -> (r: Result<(), NoteStoreError>)
    ensures
        match r {
            Ok(_) => known,
            Err(e) => !known && e@ == ErrorView::NoteNotExist(id@),
        },
{
    if known {
        Ok(())
    } else {
        Err(NoteStoreError::NoteNotExist(id.clone()))
    }
}

/// Whether the note of the identity `id` has a current revision. `known`
/// says whether a note of that identity was ever created, `live` whether it
/// has a current revision.
pub fn check_live(id: &NoteID, known: bool, live: bool) -> (r: Result<(), NoteStoreError>)
    ensures
        refuses(r, live_refusal(id@, known, live)),
{
    if !known {
        Err(NoteStoreError::NoteNotExist(id.clone()))
    } else if !live {
        Err(NoteStoreError::NoteDeleted(id.clone()))
    } else {
        Ok(())
    }
}

/// Whether the identity that was drawn for a new note is free. `taken` says
/// whether a note of that identity was ever created.
pub fn check_new_id(id: &NoteID, taken: bool) -> (r: Result<(), NoteStoreError>)
    ensures
        match r {
            Ok(_) => !taken,
            Err(e) => taken && e@ == ErrorView::NoteIDConflict(id@),
        },
{
    if taken {
        Err(NoteStoreError::NoteIDConflict(id.clone()))
    } else {
        Ok(())
    }
}

/// Whether the revision that was drawn for a new revision of the note `id`
/// is free. `taken` says whether the note has that revision already.
pub fn check_new_revision(id: &NoteID, revision: &Revision, taken: bool) -> (r: Result<
    (),
    NoteStoreError,
>)
    ensures
        match r {
            Ok(_) => !taken,
            Err(e) => taken && e@ == ErrorView::RevisionConflict(id@, revision@),
        },
{
    if taken {
        Err(NoteStoreError::RevisionConflict(id.clone(), revision.clone()))
    } else {
        Ok(())
    }
}

/// Whether an update through `loc` may go on: only the newest revision of a
/// note is updated. `newest` says whether the revision that `loc` resolved
/// to is the newest; a locator of the current revision always points at it.
pub fn check_update(loc: &NoteLocator, newest: bool) -> (r: Result<(), NoteStoreError>)
    ensures
        refuses(r, update_refusal(loc@, newest)),
{
    match loc {
        NoteLocator::Specific(id, rev) => {
            if newest {
                Ok(())
            } else {
                Err(NoteStoreError::UpdateOldRevision(id.clone(), rev.clone()))
            }
        },
        NoteLocator::Current(_) => Ok(()),
    }
}

/// Whether a deletion through `loc` may go on. `current` says whether `loc`
/// points at the current revision of a live note; `branches` and `referents`
/// are the live notes that branch from the note and that refer to it.
pub fn check_delete(
    loc: &NoteLocator,
    current: bool,
    branches: &Vec<NoteID>,
    referents: &Vec<NoteID>,
) -> (r: Result<(), NoteStoreError>)
    ensures
        refuses(r, delete_refusal(loc@, current, id_set(branches@), id_set(referents@))),
{
    proof {
        lemma_ids_empty(branches@);
        lemma_ids_empty(referents@);
    }
    if !current {
        match loc {
            NoteLocator::Specific(id, rev) => Err(
                NoteStoreError::DeleteOldRevision(id.clone(), rev.clone()),
            ),
            NoteLocator::Current(id) => Err(NoteStoreError::NoteDeleted(id.clone())),
        }
    } else if branches.len() != 0 {
        Err(NoteStoreError::HasBranches(loc.get_id().clone()))
    } else if referents.len() != 0 {
        Err(NoteStoreError::HasReferences(loc.get_id().clone()))
    } else {
        Ok(())
    }
}

/// Whether a note may be appended to `last`, whose successor is `next`: a
/// place in a sequence takes one successor.
pub fn check_append(last: &NoteID, next: &Option<NoteID>) -> (r: Result<(), NoteStoreError>)
    ensures
        refuses(r, append_refusal(last@, id_option(*next))),
{
    match next {
        Some(n) => Err(NoteStoreError::ExistingNext(last.clone(), n.clone())),
        None => Ok(()),
    }
}

/// The links that the successor of a deleted note takes over: the deleted
/// note's parent and predecessor, in this order.
pub fn inherited_links(parent: &Option<NoteID>, prev: &Option<NoteID>) -> (links: (
    Option<NoteID>,
    Option<NoteID>,
))
    ensures
        id_option(links.0) == id_option(*parent),
        id_option(links.1) == id_option(*prev),
{
    (clone_id_option(parent), clone_id_option(prev))
}

/// The resolution rule is the model's: in every store a locator is refused
/// exactly where the model does not resolve it, and with the same error.
pub proof fn law_resolve_rule<T: NoteType>(s: StoreView<T>, loc: LocatorView)
    ensures
        ({
            let id = loc.id();
            let has = match loc {
                LocatorView::Specific(_, rev) => s.has_revision(id, rev),
                LocatorView::Current(_) => false,
            };
            match resolve_refusal(loc, s.known(id), s.live(id), has) {
                Some(e) => s.resolve(loc) == Err::<int, ErrorView>(e),
                None => s.resolve(loc) is Ok,
            }
        }),
{
}

/// The update rule is the model's: for every well-formed store in which
/// `loc` resolves, the rule refuses exactly where the model's update fails
/// for the age of the revision, and with the same error.
pub proof fn law_update_rule<T: NoteType>(
    s: StoreView<T>,
    loc: LocatorView,
    revision: Seq<char>,
    now: u128,
    patch: crate::notestore::model::PatchView<T>,
)
    requires
        s.wf(),
        s.resolve(loc) is Ok,
    ensures
        ({
            let newest = s.at_head(loc, s.resolve(loc)->Ok_0);
            match update_refusal(loc, newest) {
                Some(e) => s.update(loc, revision, now, patch) == Err::<StoreView<T>, ErrorView>(e),
                None => newest,
            }
        }),
{
    lemma_resolve(s, loc);
}

/// The delete rule is the model's: for every well-formed store in which
/// `loc` resolves, the rule refuses exactly where the model's deletion is
/// refused for the note's state, and with the same error.
pub proof fn law_delete_rule<T: NoteType>(
    s: StoreView<T>,
    loc: LocatorView,
    revision: Seq<char>,
    now: u128,
)
    requires
        s.wf(),
        s.resolve(loc) is Ok,
    ensures
        ({
            let current = s.points_at_current(loc)->Ok_0;
            let id = loc.id();
            match delete_refusal(loc, current, s.branches(id), s.referents(id)) {
                Some(e) => s.delete(loc, revision, now) == Err::<StoreView<T>, ErrorView>(e),
                None => s.live(id) && s.at_head(loc, s.resolve(loc)->Ok_0) && s.branches(id)
                    === Set::empty() && s.referents(id) === Set::empty(),
            }
        }),
{
    lemma_resolve(s, loc);
    let id = loc.id();
    let k = s.resolve(loc)->Ok_0;
    if s.points_at_current(loc)->Ok_0 {
        lemma_current_resolves(s, loc);
    } else {
        match loc {
            LocatorView::Current(_) => {},
            LocatorView::Specific(_, rev) => {
                if s.live(id) && s.at_head(loc, k) {
                    assert(s.notes[id][k].revision == rev);
                }
            },
        }
    }
}

/// The append rule is the model's: for every store in which `last` is live
/// the rule refuses exactly where the model's append fails for the
/// successor that `last` has, and with the same error.
pub proof fn law_append_rule<T: NoteType>(
    s: StoreView<T>,
    last: Seq<char>,
    id: Seq<char>,
    revision: Seq<char>,
    now: u128,
    draft: crate::notestore::model::DraftView<T>,
)
    requires
        s.known(last),
        s.live(last),
    ensures
        match append_refusal(last, s.next(last)) {
            Some(e) => s.append(last, id, revision, now, draft) == Err::<StoreView<T>, ErrorView>(e),
            None => s.next(last).is_none(),
        },
{
}

} // verus!
