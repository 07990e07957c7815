//! Every operation of a store leads from a well-formed store to a well-formed
//! store.
use vstd::prelude::*;
use crate::notestore::model::{RevisionView, StoreView};
use crate::notetype::NoteType;

verus! {

/// A store without a successor of `id` has no live note that follows `id`.
pub proof fn lemma_no_next<T: NoteType>(s: StoreView<T>, id: Seq<char>)
    requires
        s.next(id).is_none(),
    ensures
        forall|other: Seq<char>| !s.is_next(id, other),
{
}

/// In a well-formed store the successor of `id` is the only live note that
/// follows `id`.
pub proof fn lemma_next_unique<T: NoteType>(s: StoreView<T>, id: Seq<char>, other: Seq<char>)
    requires
        s.wf(),
        s.is_next(id, other),
    ensures
        s.next(id) == Some(other),
{
    let chosen = choose|c: Seq<char>| s.is_next(id, c);
    assert(s.is_next(id, chosen));
}

/// Adding a note under a new identity keeps the store well-formed, if the
/// note has not both a parent and a predecessor and its predecessor has no
/// successor yet.
pub proof fn lemma_with_note_wf<T: NoteType>(s: StoreView<T>, id: Seq<char>, r: RevisionView<T>)
    requires
        s.wf(),
        !s.known(id),
        !(r.parent.is_some() && r.prev.is_some()),
        r.prev.is_some() ==> s.next(r.prev.unwrap()).is_none(),
    ensures
        s.with_note(id, r).wf(),
{
    let t = s.with_note(id, r);
    assert(!s.live(id));
    assert forall|c: Seq<char>| c != id implies t.live(c) == s.live(c) && t.known(c) == s.known(c)
        && t.notes[c] == s.notes[c] && t.head(c) == s.head(c) by {}
    assert(t.notes[id] == seq![r]);
    assert(t.head(id) == r);
    assert forall|x: Seq<char>, a: Seq<char>, b: Seq<char>|
        #[trigger] t.is_next(x, a) && #[trigger] t.is_next(x, b) implies a == b by {
        if a == id && b != id {
            assert(s.is_next(x, b));
            lemma_no_next(s, x);
        }
        if b == id && a != id {
            assert(s.is_next(x, a));
            lemma_no_next(s, x);
        }
        if a != id && b != id {
            assert(s.is_next(x, a) && s.is_next(x, b));
        }
    }
    assert forall|c: Seq<char>, j: int, k: int|
        t.known(c) && 0 <= j < k < t.notes[c].len() implies (#[trigger] t.notes[c][j]).revision != (
    #[trigger] t.notes[c][k]).revision by {
        if c != id {
            assert(s.notes[c][j].revision != s.notes[c][k].revision);
        }
    }
    assert forall|c: Seq<char>, k: int| t.known(c) && 0 <= k < t.notes[c].len() implies !({
        let q = #[trigger] t.notes[c][k];
        q.parent.is_some() && q.prev.is_some()
    }) by {
        if c != id {
            let q = s.notes[c][k];
            assert(!(q.parent.is_some() && q.prev.is_some()));
        }
    }
}

/// Giving a known note a newest revision keeps the store well-formed, if the
/// revision is new to the note, keeps the links of the newest one, and the
/// note is live or its place in its sequence is still free.
pub proof fn lemma_with_revision_wf<T: NoteType>(
    s: StoreView<T>,
    id: Seq<char>,
    r: RevisionView<T>,
)
    requires
        s.wf(),
        s.known(id),
        !s.has_revision(id, r.revision),
        r.parent == s.head(id).parent,
        r.prev == s.head(id).prev,
        !s.place_taken(id),
    ensures
        s.with_revision(id, r).wf(),
{
    let t = s.with_revision(id, r);
    assert forall|c: Seq<char>| c != id implies t.live(c) == s.live(c) && t.known(c) == s.known(c)
        && t.notes[c] == s.notes[c] && t.head(c) == s.head(c) by {}
    assert(t.notes[id] == s.notes[id].push(r));
    assert(t.head(id) == r);
    let last = s.notes[id].len() - 1;
    let old_head = s.notes[id][last];
    assert(!(old_head.parent.is_some() && old_head.prev.is_some()));
    assert forall|x: Seq<char>, a: Seq<char>, b: Seq<char>|
        #[trigger] t.is_next(x, a) && #[trigger] t.is_next(x, b) implies a == b by {
        if s.live(id) {
            assert(s.is_next(x, a) && s.is_next(x, b));
        } else {
            if a == id && b != id {
                assert(s.is_next(x, b));
                lemma_next_unique(s, x, b);
            }
            if b == id && a != id {
                assert(s.is_next(x, a));
                lemma_next_unique(s, x, a);
            }
            if a != id && b != id {
                assert(s.is_next(x, a) && s.is_next(x, b));
            }
        }
    }
    assert forall|c: Seq<char>, j: int, k: int|
        t.known(c) && 0 <= j < k < t.notes[c].len() implies (#[trigger] t.notes[c][j]).revision != (
    #[trigger] t.notes[c][k]).revision by {
        if c != id {
            assert(s.notes[c][j].revision != s.notes[c][k].revision);
        } else {
            if k < s.notes[id].len() {
                assert(s.notes[c][j].revision != s.notes[c][k].revision);
            } else {
                assert(!s.revision_at(id, r.revision, j));
            }
        }
    }
    assert forall|c: Seq<char>, k: int| t.known(c) && 0 <= k < t.notes[c].len() implies !({
        let q = #[trigger] t.notes[c][k];
        q.parent.is_some() && q.prev.is_some()
    }) by {
        if c != id || k < s.notes[id].len() {
            let q = s.notes[c][k];
            assert(!(q.parent.is_some() && q.prev.is_some()));
        }
    }
}

/// Deleting a live note keeps the store well-formed.
pub proof fn lemma_without_current_wf<T: NoteType>(s: StoreView<T>, id: Seq<char>)
    requires
        s.wf(),
    ensures
        s.without_current(id).wf(),
{
    let t = s.without_current(id);
    assert forall|c: Seq<char>| t.known(c) == s.known(c) && t.notes[c] == s.notes[c] && t.head(c)
        == s.head(c) && (t.live(c) ==> s.live(c)) by {}
    assert forall|x: Seq<char>, a: Seq<char>, b: Seq<char>|
        #[trigger] t.is_next(x, a) && #[trigger] t.is_next(x, b) implies a == b by {
        assert(s.is_next(x, a) && s.is_next(x, b));
    }
    assert forall|c: Seq<char>, j: int, k: int|
        t.known(c) && 0 <= j < k < t.notes[c].len() implies (#[trigger] t.notes[c][j]).revision != (
    #[trigger] t.notes[c][k]).revision by {
        assert(s.notes[c][j].revision != s.notes[c][k].revision);
    }
    assert forall|c: Seq<char>, k: int| t.known(c) && 0 <= k < t.notes[c].len() implies !({
        let q = #[trigger] t.notes[c][k];
        q.parent.is_some() && q.prev.is_some()
    }) by {
        let q = s.notes[c][k];
        assert(!(q.parent.is_some() && q.prev.is_some()));
    }
}

/// Deleting a live note whose successor inherits its links keeps the store
/// well-formed.
pub proof fn lemma_relink_wf<T: NoteType>(
    s: StoreView<T>,
    id: Seq<char>,
    other: Seq<char>,
    r: RevisionView<T>,
)
    requires
        s.wf(),
        s.live(id),
        s.is_next(id, other),
        !s.has_revision(other, r.revision),
        r.parent == s.head(id).parent,
        r.prev == s.head(id).prev,
    ensures
        s.with_revision(other, r).without_current(id).wf(),
{
    let t = s.with_revision(other, r).without_current(id);
    assert forall|c: Seq<char>| c != other implies t.known(c) == s.known(c) && t.notes[c]
        == s.notes[c] && t.head(c) == s.head(c) by {}
    assert forall|c: Seq<char>| c != id implies t.live(c) == s.live(c) by {}
    assert(!t.live(id));
    assert(t.notes[other] == s.notes[other].push(r));
    assert(t.head(other) == r);
    let last = s.notes[id].len() - 1;
    let gone = s.notes[id][last];
    assert(!(gone.parent.is_some() && gone.prev.is_some()));
    assert forall|x: Seq<char>, a: Seq<char>, b: Seq<char>|
        #[trigger] t.is_next(x, a) && #[trigger] t.is_next(x, b) implies a == b by {
        if a == other && b != other {
            assert(s.is_next(x, id));
            assert(s.is_next(x, b));
        }
        if b == other && a != other {
            assert(s.is_next(x, id));
            assert(s.is_next(x, a));
        }
        if a != other && b != other {
            assert(s.is_next(x, a) && s.is_next(x, b));
        }
    }
    assert forall|c: Seq<char>, j: int, k: int|
        t.known(c) && 0 <= j < k < t.notes[c].len() implies (#[trigger] t.notes[c][j]).revision != (
    #[trigger] t.notes[c][k]).revision by {
        if c != other {
            assert(s.notes[c][j].revision != s.notes[c][k].revision);
        } else {
            if k < s.notes[other].len() {
                assert(s.notes[c][j].revision != s.notes[c][k].revision);
            } else {
                assert(!s.revision_at(other, r.revision, j));
            }
        }
    }
    assert forall|c: Seq<char>, k: int| t.known(c) && 0 <= k < t.notes[c].len() implies !({
        let q = #[trigger] t.notes[c][k];
        q.parent.is_some() && q.prev.is_some()
    }) by {
        if c != other || k < s.notes[other].len() {
            let q = s.notes[c][k];
            assert(!(q.parent.is_some() && q.prev.is_some()));
        }
    }
}

} // verus!
