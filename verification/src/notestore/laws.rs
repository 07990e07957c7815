//! What holds of every store, whatever operations led to it.
use vstd::prelude::*;
use crate::errors::ErrorView;
use crate::note::LocatorView;
use crate::notestore::model::{DraftView, PatchView, StoreView};
use crate::notestore::preservation::{
    lemma_next_unique, lemma_relink_wf, lemma_with_note_wf, lemma_with_revision_wf,
    lemma_without_current_wf,
};
use crate::notetype::NoteType;

verus! {

/// One operation that changes a store, with the identifiers and the time
/// that were drawn for it.
pub enum Operation<T: NoteType> {
    Create { id: Seq<char>, revision: Seq<char>, now: u128, draft: DraftView<T> },
    Append { last: Seq<char>, id: Seq<char>, revision: Seq<char>, now: u128, draft: DraftView<T> },
    Branch {
        parent: Seq<char>,
        id: Seq<char>,
        revision: Seq<char>,
        now: u128,
        draft: DraftView<T>,
    },
    Update { loc: LocatorView, revision: Seq<char>, now: u128, patch: PatchView<T> },
    Delete { loc: LocatorView, revision: Seq<char>, now: u128 },
}

impl<T: NoteType> Operation<T> {
    /// The identity of the note that the operation creates, if it creates
    /// one.
    pub open spec fn new_id(self) -> Option<Seq<char>> {
        match self {
            Operation::Create { id, .. } => Some(id),
            Operation::Append { id, .. } => Some(id),
            Operation::Branch { id, .. } => Some(id),
            _ => None,
        }
    }
}

impl<T: NoteType> StoreView<T> {
    /// What an operation makes of the store, or why it fails.
    pub open spec fn step(self, op: Operation<T>) -> Result<Self, ErrorView> {
        match op {
            Operation::Create { id, revision, now, draft } => self.create(id, revision, now, draft),
            Operation::Append { last, id, revision, now, draft } => self.append(
                last,
                id,
                revision,
                now,
                draft,
            ),
            Operation::Branch { parent, id, revision, now, draft } => self.branch(
                parent,
                id,
                revision,
                now,
                draft,
            ),
            Operation::Update { loc, revision, now, patch } => self.update(
                loc,
                revision,
                now,
                patch,
            ),
            Operation::Delete { loc, revision, now } => self.delete(loc, revision, now),
        }
    }

    /// The store after an operation: a failed operation changes nothing.
    pub open spec fn after(self, op: Operation<T>) -> Self {
        match self.step(op) {
            Ok(s) => s,
            Err(_) => self,
        }
    }

    /// The store after a sequence of operations.
    pub open spec fn run(self, ops: Seq<Operation<T>>) -> Self
        decreases ops.len(),
    {
        if ops.len() == 0 {
            self
        } else {
            self.run(ops.drop_last()).after(ops.last())
        }
    }
}

/// A locator that resolves in a well-formed store resolves to a place in
/// the history of a known note, and a pinned revision stands at that place.
pub proof fn lemma_resolve<T: NoteType>(s: StoreView<T>, loc: LocatorView)
    requires
        s.wf(),
        s.resolve(loc) is Ok,
    ensures
        s.known(loc.id()),
        0 <= s.resolve(loc)->Ok_0 < s.notes[loc.id()].len(),
        loc matches LocatorView::Specific(_, rev) ==> s.notes[loc.id()][s.resolve(loc)->Ok_0].revision
            == rev,
        loc is Current ==> s.live(loc.id()) && s.at_head(loc, s.resolve(loc)->Ok_0),
{
    match loc {
        LocatorView::Current(id) => {},
        LocatorView::Specific(id, rev) => {
            let k = choose|k: int| s.revision_at(id, rev, k);
            assert(s.revision_at(id, rev, k));
        },
    }
}

/// The empty store is well-formed.
pub proof fn law_empty_wf<T: NoteType>()
    ensures
        StoreView::<T>::empty().wf(),
{
}

/// Every operation leads from a well-formed store to a well-formed store.
pub proof fn law_step_wf<T: NoteType>(s: StoreView<T>, op: Operation<T>)
    requires
        s.wf(),
    ensures
        s.after(op).wf(),
{
    if s.step(op) is Ok {
        match op {
            Operation::Create { id, revision, now, draft } => {
                lemma_with_note_wf(
                    s,
                    id,
                    StoreView::<T>::first_revision(revision, now, draft, None, None),
                );
            },
            Operation::Append { last, id, revision, now, draft } => {
                lemma_with_note_wf(
                    s,
                    id,
                    StoreView::<T>::first_revision(revision, now, draft, None, Some(last)),
                );
            },
            Operation::Branch { parent, id, revision, now, draft } => {
                lemma_with_note_wf(
                    s,
                    id,
                    StoreView::<T>::first_revision(revision, now, draft, Some(parent), None),
                );
            },
            Operation::Update { loc, revision, now, patch } => {
                lemma_resolve(s, loc);
                lemma_with_revision_wf(
                    s,
                    loc.id(),
                    StoreView::<T>::next_revision(s.head(loc.id()), revision, now, patch),
                );
            },
            Operation::Delete { loc, revision, now } => {
                lemma_resolve(s, loc);
                let id = loc.id();
                match s.next(id) {
                    None => {
                        lemma_without_current_wf(s, id);
                    },
                    Some(other) => {
                        let chosen = choose|c: Seq<char>| s.is_next(id, c);
                        assert(s.is_next(id, chosen));
                        lemma_relink_wf(
                            s,
                            id,
                            other,
                            StoreView::<T>::relinked_revision(
                                s.head(other),
                                s.head(id),
                                revision,
                                now,
                            ),
                        );
                    },
                }
            },
        }
    }
}

/// Every store that a sequence of operations reaches from a well-formed
/// store, such as the empty one, is well-formed.
pub proof fn law_run_wf<T: NoteType>(s: StoreView<T>, ops: Seq<Operation<T>>)
    requires
        s.wf(),
    ensures
        s.run(ops).wf(),
    decreases ops.len(),
{
    if ops.len() > 0 {
        law_run_wf(s, ops.drop_last());
        law_step_wf(s.run(ops.drop_last()), ops.last());
    }
}

/// No operation forgets a note: an identity that is known stays known, and
/// the revisions that its note has stay where they are in its history.
pub proof fn law_history_grows<T: NoteType>(s: StoreView<T>, op: Operation<T>, id: Seq<char>)
    requires
        s.wf(),
        s.known(id),
    ensures
        s.after(op).known(id),
        s.notes[id].len() <= s.after(op).notes[id].len(),
        forall|k: int| 0 <= k < s.notes[id].len() ==> s.after(op).notes[id][k] == s.notes[id][k],
{
    if s.step(op) is Ok {
        match op {
            Operation::Update { loc, revision, now, patch } => {
                lemma_resolve(s, loc);
            },
            Operation::Delete { loc, revision, now } => {
                lemma_resolve(s, loc);
                if s.next(loc.id()) is Some {
                    let chosen = choose|c: Seq<char>| s.is_next(loc.id(), c);
                    assert(s.is_next(loc.id(), chosen));
                }
            },
            _ => {},
        }
    }
}

/// An identity that is known before a sequence of operations is known after
/// it.
pub proof fn law_known_forever<T: NoteType>(s: StoreView<T>, ops: Seq<Operation<T>>, id: Seq<char>)
    requires
        s.wf(),
        s.known(id),
    ensures
        s.run(ops).known(id),
    decreases ops.len(),
{
    if ops.len() > 0 {
        law_known_forever(s, ops.drop_last(), id);
        law_run_wf(s, ops.drop_last());
        law_history_grows(s.run(ops.drop_last()), ops.last(), id);
    }
}

/// An operation that creates a note takes an identity that was not known
/// and makes it known.
pub proof fn law_created_is_new<T: NoteType>(s: StoreView<T>, op: Operation<T>)
    requires
        s.step(op) is Ok,
        op.new_id() is Some,
    ensures
        !s.known(op.new_id().unwrap()),
        s.after(op).known(op.new_id().unwrap()),
{
}

/// Uniqueness: whatever operations lie between them, two operations that
/// create notes in the course of one run of a store give the notes different
/// identities.
pub proof fn law_unique_ids<T: NoteType>(
    s: StoreView<T>,
    ops: Seq<Operation<T>>,
    i: int,
    j: int,
)
    requires
        s.wf(),
        0 <= i < j < ops.len(),
        ops[i].new_id() is Some,
        ops[j].new_id() is Some,
        s.run(ops.take(i)).step(ops[i]) is Ok,
        s.run(ops.take(j)).step(ops[j]) is Ok,
    ensures
        ops[i].new_id() != ops[j].new_id(),
{
    let id = ops[i].new_id().unwrap();
    let first = s.run(ops.take(i));
    law_created_is_new(first, ops[i]);
    law_run_wf(s, ops.take(i));
    law_run_wf(s, ops.take(i + 1));
    assert(ops.take(i + 1).drop_last() =~= ops.take(i));
    assert(s.run(ops.take(i + 1)) == first.after(ops[i]));
    lemma_run_split(s, ops.take(j), i + 1);
    assert(ops.take(j).take(i + 1) =~= ops.take(i + 1));
    law_known_forever(s.run(ops.take(i + 1)), ops.take(j).skip(i + 1), id);
    law_created_is_new(s.run(ops.take(j)), ops[j]);
}

/// Running a sequence of operations is running its first `n` and then the
/// rest.
pub proof fn lemma_run_split<T: NoteType>(s: StoreView<T>, ops: Seq<Operation<T>>, n: int)
    requires
        0 <= n <= ops.len(),
    ensures
        s.run(ops) == s.run(ops.take(n)).run(ops.skip(n)),
    decreases ops.len(),
{
    if n == ops.len() {
        assert(ops.take(n) =~= ops);
        assert(ops.skip(n).len() == 0);
    } else {
        lemma_run_split(s, ops.drop_last(), n);
        assert(ops.drop_last().take(n) =~= ops.take(n));
        assert(ops.drop_last().skip(n) =~= ops.skip(n).drop_last());
        assert(ops.skip(n).last() == ops.last());
    }
}

/// Current-revision monotonicity: after an update the new revision is the
/// current one of the note, and every older revision is read through the
/// locator that pins it as it was kept: the same place in the history, the
/// same title, content, links, metadata and times.
pub proof fn law_update_repoints<T: NoteType>(
    s: StoreView<T>,
    loc: LocatorView,
    revision: Seq<char>,
    now: u128,
    patch: PatchView<T>,
)
    requires
        s.wf(),
        s.update(loc, revision, now, patch) is Ok,
    ensures
        ({
            let t = s.update(loc, revision, now, patch)->Ok_0;
            let id = loc.id();
            &&& t.current(loc) == Ok::<Option<Seq<char>>, ErrorView>(Some(revision))
            &&& t.resolve(LocatorView::Specific(id, revision)) == Ok::<int, ErrorView>(
                s.notes[id].len() as int,
            )
            &&& forall|k: int|
                0 <= k < s.notes[id].len() ==> t.notes[id][k] == #[trigger] s.notes[id][k]
                    && t.resolve(LocatorView::Specific(id, s.notes[id][k].revision)) == Ok::<
                    int,
                    ErrorView,
                >(k)
        }),
{
    let t = s.update(loc, revision, now, patch)->Ok_0;
    let id = loc.id();
    lemma_resolve(s, loc);
    law_step_wf(s, Operation::Update { loc, revision, now, patch });
    assert(t == s.after(Operation::Update { loc, revision, now, patch }));
    assert forall|k: int| 0 <= k < t.notes[id].len() implies t.resolve(
        LocatorView::Specific(id, #[trigger] t.notes[id][k].revision),
    ) == Ok::<int, ErrorView>(k) by {
        lemma_pinned(t, id, k);
    }
    assert(t.notes[id][s.notes[id].len() as int].revision == revision);
}

/// In a well-formed store the locator that pins the revision at place `k` of
/// a note resolves to place `k`.
pub proof fn lemma_pinned<T: NoteType>(s: StoreView<T>, id: Seq<char>, k: int)
    requires
        s.wf(),
        s.known(id),
        0 <= k < s.notes[id].len(),
    ensures
        s.resolve(LocatorView::Specific(id, s.notes[id][k].revision)) == Ok::<int, ErrorView>(k),
{
    let rev = s.notes[id][k].revision;
    assert(s.revision_at(id, rev, k));
    let chosen = s.index_of(id, rev);
    assert(s.revision_at(id, rev, chosen));
    if chosen < k {
        assert(s.notes[id][chosen].revision != s.notes[id][k].revision);
    }
    if chosen > k {
        assert(s.notes[id][k].revision != s.notes[id][chosen].revision);
    }
}

/// Exclusivity: no note that a well-formed store gives has both a parent and
/// a predecessor.
pub proof fn law_exclusive<T: NoteType>(s: StoreView<T>, loc: LocatorView)
    requires
        s.wf(),
        s.read(loc) is Ok,
    ensures
        !(s.read(loc)->Ok_0.parent.is_some() && s.read(loc)->Ok_0.prev.is_some()),
{
    lemma_resolve(s, loc);
    let r = s.notes[loc.id()][s.resolve(loc)->Ok_0];
    assert(!(r.parent.is_some() && r.prev.is_some()));
}

/// Cascade correctness: where the deleted note has a successor, the
/// successor's newest revision takes over the deleted note's predecessor and
/// parent and keeps the rest; the deleted note is no longer live, and every
/// revision of it is still read through the locator that pins it.
pub proof fn law_cascade<T: NoteType>(
    s: StoreView<T>,
    loc: LocatorView,
    revision: Seq<char>,
    now: u128,
    other: Seq<char>,
)
    requires
        s.wf(),
        s.delete(loc, revision, now) is Ok,
        s.next(loc.id()) == Some(other),
    ensures
        ({
            let t = s.delete(loc, revision, now)->Ok_0;
            let id = loc.id();
            &&& t.head(other).prev == s.head(id).prev
            &&& t.head(other).parent == s.head(id).parent
            &&& t.head(other).title == s.head(other).title
            &&& t.head(other).note_inner == s.head(other).note_inner
            &&& t.head(other).metadata == s.head(other).metadata
            &&& other != id ==> t.current(LocatorView::Current(other)) == Ok::<
                Option<Seq<char>>,
                ErrorView,
            >(Some(revision))
            &&& t.read(LocatorView::Current(id)) == Err::<crate::note::NoteView<T>, ErrorView>(
                ErrorView::NoteDeleted(id),
            )
            &&& forall|k: int|
                0 <= k < s.notes[id].len() ==> t.notes[id][k] == #[trigger] s.notes[id][k]
                    && t.resolve(LocatorView::Specific(id, s.notes[id][k].revision)) == Ok::<
                    int,
                    ErrorView,
                >(k)
        }),
{
    let t = s.delete(loc, revision, now)->Ok_0;
    let id = loc.id();
    let op = Operation::Delete { loc, revision, now };
    lemma_resolve(s, loc);
    law_step_wf(s, op);
    assert(t == s.after(op));
    let chosen = choose|c: Seq<char>| s.is_next(id, c);
    assert(s.is_next(id, chosen));
    law_history_grows(s, op, id);
    assert forall|k: int| 0 <= k < s.notes[id].len() implies t.resolve(
        LocatorView::Specific(id, #[trigger] s.notes[id][k].revision),
    ) == Ok::<int, ErrorView>(k) by {
        lemma_pinned(t, id, k);
    }
}

/// A deletion without a successor changes nothing but the liveness of the
/// deleted note.
pub proof fn law_delete_plain<T: NoteType>(
    s: StoreView<T>,
    loc: LocatorView,
    revision: Seq<char>,
    now: u128,
)
    requires
        s.wf(),
        s.delete(loc, revision, now) is Ok,
        s.next(loc.id()).is_none(),
    ensures
        s.delete(loc, revision, now)->Ok_0 == s.without_current(loc.id()),
        s.delete(loc, revision, now)->Ok_0.read(LocatorView::Current(loc.id())) == Err::<
            crate::note::NoteView<T>,
            ErrorView,
        >(ErrorView::NoteDeleted(loc.id())),
{
    lemma_resolve(s, loc);
}

/// Delete guards: a deletion aimed at the current revision of a live note
/// fails with `HasBranches` where a live note branches from it, and with
/// `HasReferences` where none branches from it and a live note refers to
/// it.
pub proof fn law_delete_guards<T: NoteType>(
    s: StoreView<T>,
    loc: LocatorView,
    revision: Seq<char>,
    now: u128,
    other: Seq<char>,
)
    requires
        s.wf(),
        s.points_at_current(loc) == Ok::<bool, ErrorView>(true),
    ensures
        s.is_branch(loc.id(), other) ==> s.delete(loc, revision, now) == Err::<
            StoreView<T>,
            ErrorView,
        >(ErrorView::HasBranches(loc.id())),
        s.branches(loc.id()) === Set::empty() && s.is_referent(loc.id(), other) ==> s.delete(
            loc,
            revision,
            now,
        ) == Err::<StoreView<T>, ErrorView>(ErrorView::HasReferences(loc.id())),
{
    let id = loc.id();
    lemma_current_resolves(s, loc);
    if s.is_branch(id, other) {
        assert(s.branches(id).contains(other));
    }
    if s.is_referent(id, other) {
        assert(s.referents(id).contains(other));
    }
}

/// A locator that points at the current revision of a live note resolves to
/// the newest revision of the note.
pub proof fn lemma_current_resolves<T: NoteType>(s: StoreView<T>, loc: LocatorView)
    requires
        s.wf(),
        s.points_at_current(loc) == Ok::<bool, ErrorView>(true),
    ensures
        s.live(loc.id()),
        s.resolve(loc) == Ok::<int, ErrorView>(s.notes[loc.id()].len() - 1),
{
    let id = loc.id();
    match loc {
        LocatorView::Current(_) => {},
        LocatorView::Specific(_, rev) => {
            lemma_pinned(s, id, s.notes[id].len() - 1);
        },
    }
}

/// Backlink symmetry, on creation: once a note is created, whether alone, in
/// a sequence or on a branch, it is among the referents of exactly the notes
/// that its content refers to.
pub proof fn law_backlinks_created<T: NoteType>(
    s: StoreView<T>,
    op: Operation<T>,
    content: T::V,
    target: Seq<char>,
)
    requires
        s.wf(),
        s.step(op) is Ok,
        match op {
            Operation::Create { draft, .. } => draft.note_inner == content,
            Operation::Append { draft, .. } => draft.note_inner == content,
            Operation::Branch { draft, .. } => draft.note_inner == content,
            _ => false,
        },
    ensures
        s.after(op).referents(target).contains(op.new_id().unwrap()) == T::references(
            content,
        ).contains(target),
{
}

/// Backlink symmetry, on update: once a note is updated, it is among the
/// referents of exactly the notes that its content now refers to: of those
/// that the new content names, and no longer of those that it does not.
pub proof fn law_backlinks_updated<T: NoteType>(
    s: StoreView<T>,
    loc: LocatorView,
    revision: Seq<char>,
    now: u128,
    patch: PatchView<T>,
    target: Seq<char>,
)
    requires
        s.wf(),
        s.update(loc, revision, now, patch) is Ok,
    ensures
        ({
            let t = s.update(loc, revision, now, patch)->Ok_0;
            let content = match patch.note_inner {
                Some(c) => c,
                None => s.head(loc.id()).note_inner,
            };
            t.referents(target).contains(loc.id()) == T::references(content).contains(target)
        }),
{
    lemma_resolve(s, loc);
}

/// Backlinks are the inverse of references: in every store, a note is among
/// the referents of `target` exactly if it is live and its current content
/// refers to `target`.
pub proof fn law_backlinks_inverse<T: NoteType>(s: StoreView<T>, source: Seq<char>, target: Seq<char>)
    ensures
        s.referents(target).contains(source) == (s.live(source) && T::references(
            s.head(source).note_inner,
        ).contains(target)),
        s.branches(target).contains(source) == (s.live(source) && s.head(source).parent == Some(
            target,
        )),
{
}

/// Sequence links are each other's inverse: in a well-formed store, `other`
/// is the successor of `id` exactly if it is live and `id` is its
/// predecessor.
pub proof fn law_next_inverse<T: NoteType>(s: StoreView<T>, id: Seq<char>, other: Seq<char>)
    requires
        s.wf(),
    ensures
        (s.next(id) == Some(other)) == (s.live(other) && s.head(other).prev == Some(id)),
{
    if s.is_next(id, other) {
        lemma_next_unique(s, id, other);
    }
    if s.next(id) == Some(other) {
        let chosen = choose|c: Seq<char>| s.is_next(id, c);
        assert(s.is_next(id, chosen));
    }
}

/// Where a note stands in its life.
pub enum NoteState {
    /// No note of the identity was ever created.
    Nonexistent,
    /// The note has this current revision.
    Live(Seq<char>),
    /// The note has revisions, but none of them is current.
    Deleted,
}

impl<T: NoteType> StoreView<T> {
    /// Where the note `id` stands in its life.
    pub open spec fn state_of(self, id: Seq<char>) -> NoteState {
        if !self.known(id) {
            NoteState::Nonexistent
        } else if self.live(id) {
            NoteState::Live(self.current_revision[id])
        } else {
            NoteState::Deleted
        }
    }
}

/// The life of a note: an operation leaves a note that does not exist as it
/// is or creates it live; it leaves a live note live or deletes it; it
/// leaves a deleted note deleted or brings it back live. No note goes back
/// to not existing, and none is created deleted.
pub proof fn law_life_of_a_note<T: NoteType>(s: StoreView<T>, op: Operation<T>, id: Seq<char>)
    requires
        s.wf(),
    ensures
        match s.state_of(id) {
            NoteState::Nonexistent => !(s.after(op).state_of(id) is Deleted),
            _ => !(s.after(op).state_of(id) is Nonexistent),
        },
{
    if s.known(id) {
        law_history_grows(s, op, id);
    } else if s.step(op) is Ok {
        match op {
            Operation::Update { loc, revision, now, patch } => {
                lemma_resolve(s, loc);
            },
            Operation::Delete { loc, revision, now } => {
                lemma_resolve(s, loc);
                if s.next(loc.id()) is Some {
                    let chosen = choose|c: Seq<char>| s.is_next(loc.id(), c);
                    assert(s.is_next(loc.id(), chosen));
                }
            },
            _ => {},
        }
    }
}

/// A pinned revision stays where it is: a locator that pins a revision and
/// resolves in a well-formed store resolves to the same place after any
/// operation, and what the store keeps of that revision is unchanged.
pub proof fn law_pinned_forever<T: NoteType>(s: StoreView<T>, op: Operation<T>, loc: LocatorView)
    requires
        s.wf(),
        loc is Specific,
        s.resolve(loc) is Ok,
    ensures
        s.after(op).resolve(loc) == s.resolve(loc),
        s.after(op).notes[loc.id()][s.resolve(loc)->Ok_0] == s.notes[loc.id()][s.resolve(
            loc,
        )->Ok_0],
{
    let id = loc.id();
    let k = s.resolve(loc)->Ok_0;
    lemma_resolve(s, loc);
    law_step_wf(s, op);
    law_history_grows(s, op, id);
    lemma_pinned(s.after(op), id, k);
}

} // verus!
