//! Writing the in-memory store out as a snapshot and reading it back.
use vstd::prelude::*;
use crate::errors::NoteStoreError;
use crate::idset::{id_option, option_is_id};
use crate::note::Note;
use crate::notestore::model::{kept, kept_all};
use crate::notestore::snapshot::{CurrentRevision, NoteHistory, SnapshotView, StoreSnapshot};
use crate::notetype::NoteType;
use super::{
    history_view, linked, position, record_ok, records_ok, view_of, Entry, InMemoryStore, Record,
};

verus! {

/// Whether no history holds a revision twice.
spec fn revisions_differ<T: NoteType>(entries: Seq<Entry<T>>) -> bool {
    forall|i: int, a: int, b: int|
        0 <= i < entries.len() && 0 <= a < b < entries[i].history@.len() ==> (
        #[trigger] entries[i].history@[a]).revision@ != (#[trigger] entries[i].history@[b]).revision@
}

/// Whether no record has both a parent and a predecessor.
spec fn links_exclusive<T: NoteType>(entries: Seq<Entry<T>>) -> bool {
    forall|i: int, k: int|
        0 <= i < entries.len() && 0 <= k < entries[i].history@.len() ==> !({
            let r = #[trigger] entries[i].history@[k];
            r.parent.is_some() && r.prev.is_some()
        })
}

/// The predecessor of the newest revision of the entry at place `i`, if the
/// entry is live.
spec fn live_prev<T: NoteType>(entries: Seq<Entry<T>>, i: int) -> Option<Seq<char>> {
    if entries[i].live {
        id_option(entries[i].history@.last().prev)
    } else {
        None
    }
}

/// Whether no two live notes follow the same note.
spec fn successors_differ<T: NoteType>(entries: Seq<Entry<T>>) -> bool {
    forall|i: int, j: int|
        0 <= i < j < entries.len() && (#[trigger] live_prev(entries, i)).is_some() ==> live_prev(
            entries,
            i,
        ) != #[trigger] live_prev(entries, j)
}

/// A store with these entries is well-formed exactly if no history holds a
/// revision twice, no record has two links, and no two live notes follow
/// the same note.
proof fn lemma_wf_entries<T: NoteType>(entries: Seq<Entry<T>>, index: Map<Seq<char>, int>)
    requires
        linked(entries, index),
        records_ok(entries),
    ensures
        view_of(entries, index).wf() == (revisions_differ(entries) && links_exclusive(entries)
            && successors_differ(entries)),
{
    let s = view_of(entries, index);
    assert forall|id: Seq<char>| s.known(id) implies s.notes[id] == history_view(
        entries[index[id]].history@,
    ) && s.notes[id].len() == entries[index[id]].history@.len() && s.head(id)
        == entries[index[id]].history@.last()@ && s.live(id) == entries[index[id]].live by {}
    if s.wf() {
        assert forall|i: int, a: int, b: int|
            0 <= i < entries.len() && 0 <= a < b < entries[i].history@.len() implies (
        #[trigger] entries[i].history@[a]).revision@ != (
        #[trigger] entries[i].history@[b]).revision@ by {
            let id = entries[i].id@;
            assert(s.known(id));
            assert(s.notes[id][a].revision != s.notes[id][b].revision);
        }
        assert forall|i: int, k: int|
            0 <= i < entries.len() && 0 <= k < entries[i].history@.len() implies !({
            let r = #[trigger] entries[i].history@[k];
            r.parent.is_some() && r.prev.is_some()
        }) by {
            let id = entries[i].id@;
            assert(s.known(id));
            let q = s.notes[id][k];
            assert(!(q.parent.is_some() && q.prev.is_some()));
        }
        assert forall|i: int, j: int|
            0 <= i < j < entries.len() && (#[trigger] live_prev(entries, i)).is_some()
                implies live_prev(entries, i) != #[trigger] live_prev(entries, j) by {
            let a = entries[i].id@;
            let b = entries[j].id@;
            assert(s.known(a) && s.known(b));
            if live_prev(entries, i) == live_prev(entries, j) {
                let x = live_prev(entries, i).unwrap();
                assert(s.is_next(x, a) && s.is_next(x, b));
            }
        }
    }
    if revisions_differ(entries) && links_exclusive(entries) && successors_differ(entries) {
        assert forall|id: Seq<char>, j: int, k: int|
            s.known(id) && 0 <= j < k < s.notes[id].len() implies (
        #[trigger] s.notes[id][j]).revision != (#[trigger] s.notes[id][k]).revision by {
            let i = index[id];
            assert(entries[i].history@[j].revision@ != entries[i].history@[k].revision@);
        }
        assert forall|id: Seq<char>, k: int| s.known(id) && 0 <= k < s.notes[id].len() implies !({
            let r = #[trigger] s.notes[id][k];
            r.parent.is_some() && r.prev.is_some()
        }) by {
            let i = index[id];
            let q = entries[i].history@[k];
            assert(!(q.parent.is_some() && q.prev.is_some()));
        }
        assert forall|id: Seq<char>, a: Seq<char>, b: Seq<char>|
            #[trigger] s.is_next(id, a) && #[trigger] s.is_next(id, b) implies a == b by {
            let i = index[a];
            let j = index[b];
            assert(live_prev(entries, i) == Some(id));
            assert(live_prev(entries, j) == Some(id));
            if i < j {
                assert(live_prev(entries, i) != live_prev(entries, j));
            }
            if j < i {
                assert(live_prev(entries, j) != live_prev(entries, i));
            }
        }
    }
}

/// Whether the entries and a snapshot hold the same, place by place.
spec fn aligned<T: NoteType>(entries: Seq<Entry<T>>, snapshot: SnapshotView<T>) -> bool {
    &&& entries.len() == snapshot.notes.len()
    &&& forall|i: int|
        0 <= i < entries.len() ==> (#[trigger] entries[i]).id@ == snapshot.notes[i].id
            && history_view(entries[i].history@) == kept_all(snapshot.notes[i].revisions)
    &&& forall|i: int, k: int|
        0 <= i < snapshot.notes.len() && 0 <= k < snapshot.notes[i].revisions.len() ==> (
        #[trigger] snapshot.notes[i].revisions[k]).id == snapshot.notes[i].id
}

/// Whether the live entries are those whose current revision a snapshot
/// names, and every current revision that it names is the newest of a note
/// that it holds.
spec fn marked<T: NoteType>(entries: Seq<Entry<T>>, snapshot: SnapshotView<T>) -> bool {
    &&& forall|i: int|
        0 <= i < entries.len() ==> (#[trigger] entries[i]).live == snapshot.marks(entries[i].id@)
    &&& forall|c: int|
        0 <= c < snapshot.current_revision.len() ==> snapshot.holds(
            (#[trigger] snapshot.current_revision[c]).0,
        ) && snapshot.current_revision[c].1 == snapshot.notes[snapshot.place(
            snapshot.current_revision[c].0,
        )].revisions.last().revision
}

/// Where the entries and a snapshot hold the same, the history of a note
/// stands in the snapshot at the place of its entry.
proof fn lemma_place_aligned<T: NoteType>(
    entries: Seq<Entry<T>>,
    index: Map<Seq<char>, int>,
    snapshot: SnapshotView<T>,
    id: Seq<char>,
)
    requires
        linked(entries, index),
        aligned(entries, snapshot),
    ensures
        snapshot.holds(id) == index.dom().contains(id),
        snapshot.holds(id) ==> snapshot.place(id) == index[id],
{
    if index.dom().contains(id) {
        assert(snapshot.holds_at(id, index[id]));
    }
    if snapshot.holds(id) {
        let i = snapshot.place(id);
        assert(snapshot.holds_at(id, i));
        assert(entries[i].id@ == id);
    }
}

/// Where the entries and a snapshot hold the same, the snapshot describes
/// the store of the entries, and is valid exactly if that store is
/// well-formed.
proof fn lemma_described<T: NoteType>(
    entries: Seq<Entry<T>>,
    index: Map<Seq<char>, int>,
    snapshot: SnapshotView<T>,
)
    requires
        linked(entries, index),
        records_ok(entries),
        aligned(entries, snapshot),
        marked(entries, snapshot),
    ensures
        snapshot.store() == view_of(entries, index),
        snapshot.valid() == view_of(entries, index).wf(),
{
    let s = view_of(entries, index);
    let t = snapshot.store();
    assert forall|id: Seq<char>| #[trigger]
        t.notes.dom().contains(id) == s.notes.dom().contains(id) by {
        lemma_place_aligned(entries, index, snapshot, id);
    }
    assert forall|id: Seq<char>| t.notes.dom().contains(id) implies #[trigger] t.notes[id]
        == s.notes[id] by {
        lemma_place_aligned(entries, index, snapshot, id);
        assert(entries[index[id]].id@ == id);
    }
    assert(t.notes.dom() =~= s.notes.dom());
    assert(t.notes =~= s.notes);
    assert forall|id: Seq<char>| #[trigger]
        t.current_revision.dom().contains(id) == s.current_revision.dom().contains(id) by {
        lemma_place_aligned(entries, index, snapshot, id);
        if snapshot.marks(id) {
            let c = snapshot.mark(id);
            assert(snapshot.marks_at(id, c));
            assert(snapshot.holds(snapshot.current_revision[c].0));
            assert(entries[index[id]].live == snapshot.marks(entries[index[id]].id@));
        }
        if index.dom().contains(id) && entries[index[id]].live {
            assert(entries[index[id]].live == snapshot.marks(entries[index[id]].id@));
        }
    }
    assert forall|id: Seq<char>| t.current_revision.dom().contains(id) implies #[trigger]
        t.current_revision[id] == s.current_revision[id] by {
        lemma_place_aligned(entries, index, snapshot, id);
        let c = snapshot.mark(id);
        assert(snapshot.marks_at(id, c));
        assert(snapshot.holds(snapshot.current_revision[c].0));
        let i = index[id];
        assert(entries[i].id@ == id);
        let revisions = snapshot.notes[i].revisions;
        let images = kept_all(revisions);
        assert(history_view(entries[i].history@) == images);
        assert(entries[i].history@.len() > 0);
        assert(images.len() == revisions.len());
        let last = revisions.len() - 1;
        assert(images[last] == kept(revisions[last]));
        assert(history_view(entries[i].history@)[last] == entries[i].history@[last]@);
    }
    assert(t.current_revision.dom() =~= s.current_revision.dom());
    assert(t.current_revision =~= s.current_revision);
    assert forall|i: int, j: int| 0 <= i < j < snapshot.notes.len() implies (
    #[trigger] snapshot.notes[i]).id != (#[trigger] snapshot.notes[j]).id by {
        assert(entries[i].id@ == snapshot.notes[i].id);
        assert(entries[j].id@ == snapshot.notes[j].id);
    }
    assert forall|i: int| 0 <= i < snapshot.notes.len() implies (
    #[trigger] snapshot.notes[i]).revisions.len() > 0 by {
        assert(entries[i].history@.len() > 0);
        assert(history_view(entries[i].history@).len() == snapshot.notes[i].revisions.len());
    }
}

/// Whether no history holds a revision twice.
fn check_revisions_differ<T: NoteType>(entries: &Vec<Entry<T>>) -> (ok: bool)
    ensures
        ok == revisions_differ(entries@),
{
    let mut i: usize = 0;
    while i < entries.len()
        invariant
            i <= entries@.len(),
            forall|n: int, a: int, b: int|
                0 <= n < i && 0 <= a < b < entries@[n].history@.len() ==> (
                #[trigger] entries@[n].history@[a]).revision@ != (
                #[trigger] entries@[n].history@[b]).revision@,
        decreases entries@.len() - i,
    {
        let history = &entries[i].history;
        let mut b: usize = 0;
        while b < history.len()
            invariant
                i < entries@.len(),
                *history == entries@[i as int].history,
                b <= history@.len(),
                forall|x: int, y: int|
                    0 <= x < y < b ==> (#[trigger] history@[x]).revision@ != (
                    #[trigger] history@[y]).revision@,
            decreases history@.len() - b,
        {
            let mut a: usize = 0;
            while a < b
                invariant
                    i < entries@.len(),
                    *history == entries@[i as int].history,
                    b < history@.len(),
                    a <= b,
                    forall|x: int|
                        0 <= x < a ==> (#[trigger] history@[x]).revision@ != history@[b as int].revision@,
                decreases b - a,
            {
                if history[a].revision == history[b].revision {
                    assert(entries@[i as int].history@[a as int].revision@
                        == entries@[i as int].history@[b as int].revision@);
                    return false;
                }
                a += 1;
            }
            b += 1;
        }
        i += 1;
    }
    true
}

/// Whether no record has both a parent and a predecessor.
fn check_links_exclusive<T: NoteType>(entries: &Vec<Entry<T>>) -> (ok: bool)
    ensures
        ok == links_exclusive(entries@),
{
    let mut i: usize = 0;
    while i < entries.len()
        invariant
            i <= entries@.len(),
            forall|n: int, k: int|
                0 <= n < i && 0 <= k < entries@[n].history@.len() ==> !({
                    let r = #[trigger] entries@[n].history@[k];
                    r.parent.is_some() && r.prev.is_some()
                }),
        decreases entries@.len() - i,
    {
        let history = &entries[i].history;
        let mut k: usize = 0;
        while k < history.len()
            invariant
                i < entries@.len(),
                *history == entries@[i as int].history,
                k <= history@.len(),
                forall|x: int|
                    0 <= x < k ==> !({
                        let r = #[trigger] history@[x];
                        r.parent.is_some() && r.prev.is_some()
                    }),
            decreases history@.len() - k,
        {
            if history[k].parent.is_some() && history[k].prev.is_some() {
                assert({
                    let r = entries@[i as int].history@[k as int];
                    r.parent.is_some() && r.prev.is_some()
                });
                return false;
            }
            k += 1;
        }
        i += 1;
    }
    true
}

/// Whether the live entry at place `i` and the one at place `j` follow the
/// same note.
fn same_live_prev<T: NoteType>(entries: &Vec<Entry<T>>, i: usize, j: usize) -> (same: bool)
    requires
        i < entries@.len(),
        j < entries@.len(),
        entries@[i as int].history@.len() > 0,
        entries@[j as int].history@.len() > 0,
    ensures
        same == (live_prev(entries@, i as int).is_some() && live_prev(entries@, i as int)
            == live_prev(entries@, j as int)),
{
    if !entries[i].live || !entries[j].live {
        return false;
    }
    let first = &entries[i].history[entries[i].history.len() - 1];
    let second = &entries[j].history[entries[j].history.len() - 1];
    match &first.prev {
        Some(prev) => option_is_id(&second.prev, prev),
        None => false,
    }
}

/// Whether no two live notes follow the same note.
fn check_successors_differ<T: NoteType>(entries: &Vec<Entry<T>>) -> (ok: bool)
    requires
        forall|i: int| 0 <= i < entries@.len() ==> (#[trigger] entries@[i]).history@.len() > 0,
    ensures
        ok == successors_differ(entries@),
{
    let mut j: usize = 0;
    while j < entries.len()
        invariant
            j <= entries@.len(),
            forall|i: int| 0 <= i < entries@.len() ==> (#[trigger] entries@[i]).history@.len() > 0,
            forall|x: int, y: int|
                0 <= x < y < j && (#[trigger] live_prev(entries@, x)).is_some() ==> live_prev(
                    entries@,
                    x,
                ) != #[trigger] live_prev(entries@, y),
        decreases entries@.len() - j,
    {
        let mut i: usize = 0;
        while i < j
            invariant
                j < entries@.len(),
                i <= j,
                forall|n: int|
                    0 <= n < entries@.len() ==> (#[trigger] entries@[n]).history@.len() > 0,
                forall|x: int|
                    0 <= x < i && (#[trigger] live_prev(entries@, x)).is_some() ==> live_prev(
                        entries@,
                        x,
                    ) != live_prev(entries@, j as int),
            decreases j - i,
        {
            if same_live_prev(entries, i, j) {
                assert(live_prev(entries@, i as int).is_some() && live_prev(entries@, i as int)
                    == live_prev(entries@, j as int));
                return false;
            }
            i += 1;
        }
        j += 1;
    }
    true
}

/// What the store keeps of the notes of a history; `None` where the history
/// is empty or holds a note of another identity.
fn records_of<T: NoteType>(history: &NoteHistory<T>) -> (records: Option<Vec<Record<T>>>)
    ensures
        match records {
            Some(kept_records) => history@.revisions.len() > 0 && history_view(kept_records@)
                == kept_all(history@.revisions) && (forall|k: int|
                0 <= k < kept_records@.len() ==> record_ok(#[trigger] kept_records@[k])) && (
            forall|k: int|
                0 <= k < history@.revisions.len() ==> (#[trigger] history@.revisions[k]).id
                    == history@.id),
            None => history@.revisions.len() == 0 || exists|k: int|
                0 <= k < history@.revisions.len() && (#[trigger] history@.revisions[k]).id
                    != history@.id,
        },
{
    if history.revisions.len() == 0 {
        return None;
    }
    let mut records: Vec<Record<T>> = Vec::new();
    let mut k: usize = 0;
    while k < history.revisions.len()
        invariant
            k <= history.revisions@.len(),
            records@.len() == k,
            forall|x: int| 0 <= x < k ==> (#[trigger] records@[x])@ == kept(history.revisions@[x]@),
            forall|x: int| 0 <= x < k ==> record_ok(#[trigger] records@[x]),
            forall|x: int| 0 <= x < k ==> (#[trigger] history.revisions@[x]).id@ == history.id@,
        decreases history.revisions@.len() - k,
    {
        let note = &history.revisions[k];
        if note.id != history.id {
            assert(history@.revisions[k as int].id != history@.id);
            return None;
        }
        records.push(Record::of(note));
        k += 1;
    }
    assert(history_view(records@) =~= kept_all(history@.revisions));
    Some(records)
}

impl<T: NoteType> InMemoryStore<T> {
    /// Everything that the store holds, written out as plain values.
    pub fn snapshot(&self) -> (snapshot: StoreSnapshot<T>)
        ensures
            snapshot@.describes(self@),
    {
        let mut notes: Vec<NoteHistory<T>> = Vec::new();
        let mut current: Vec<CurrentRevision> = Vec::new();
        let ghost mut owners: Seq<int> = Seq::empty();
        let mut i: usize = 0;
        while i < self.entries.len()
            invariant
                i <= self.entries@.len(),
                notes@.len() == i,
                forall|n: int|
                    0 <= n < i ==> (#[trigger] notes@[n]).id@ == self.entries@[n].id@
                        && notes@[n].revisions@.len() == self.entries@[n].history@.len(),
                forall|n: int, k: int|
                    0 <= n < i && 0 <= k < notes@[n].revisions@.len() ==> (
                    #[trigger] notes@[n].revisions@[k])@ == self@.note(self.entries@[n].id@, k),
                owners.len() == current@.len(),
                forall|c: int|
                    0 <= c < owners.len() ==> 0 <= (#[trigger] owners[c]) < i
                        && self.entries@[owners[c]].live && current@[c].id@
                        == self.entries@[owners[c]].id@ && current@[c].revision@
                        == self.entries@[owners[c]].history@.last().revision@,
                forall|n: int|
                    0 <= n < i && (#[trigger] self.entries@[n]).live ==> exists|c: int|
                        0 <= c < owners.len() && #[trigger] owners[c] == n,
            decreases self.entries@.len() - i,
        {
            proof {
                use_type_invariant(self);
            }
            let entry = &self.entries[i];
            let mut revisions: Vec<Note<T>> = Vec::new();
            let mut k: usize = 0;
            while k < entry.history.len()
                invariant
                    i < self.entries@.len(),
                    *entry == self.entries@[i as int],
                    k <= entry.history@.len(),
                    revisions@.len() == k,
                    forall|x: int|
                        0 <= x < k ==> (#[trigger] revisions@[x])@ == self@.note(entry.id@, x),
                decreases entry.history@.len() - k,
            {
                revisions.push(self.assemble(i, k));
                k += 1;
            }
            notes.push(NoteHistory { id: entry.id.clone(), revisions });
            if entry.live {
                current.push(
                    CurrentRevision {
                        id: entry.id.clone(),
                        revision: entry.history[entry.history.len() - 1].revision.clone(),
                    },
                );
                proof {
                    let earlier = owners;
                    owners = owners.push(i as int);
                    assert forall|n: int|
                        0 <= n < i + 1 && (#[trigger] self.entries@[n]).live implies exists|c: int|
                        0 <= c < owners.len() && #[trigger] owners[c] == n by {
                        if n < i {
                            let c = choose|c: int|
                                0 <= c < earlier.len() && #[trigger] earlier[c] == n;
                            assert(owners[c] == n);
                        } else {
                            assert(owners[earlier.len() as int] == n);
                        }
                    }
                }
            }
            i += 1;
        }
        let snapshot = StoreSnapshot { notes, current_revision: current };
        proof {
            use_type_invariant(self);
            let entries = self.entries@;
            let index = self.index@;
            let v = snapshot@;
            assert(v.notes.len() == entries.len());
            assert forall|n: int| 0 <= n < entries.len() implies (#[trigger] entries[n]).id@
                == v.notes[n].id && history_view(entries[n].history@) == kept_all(v.notes[n].revisions) by {
                let id = entries[n].id@;
                self.lemma_place(n);
                self.lemma_entry(id);
                assert(v.notes[n] == snapshot.notes@[n]@);
                assert forall|k: int| 0 <= k < entries[n].history@.len() implies history_view(
                    entries[n].history@,
                )[k] == #[trigger] kept_all(v.notes[n].revisions)[k] by {
                    assert(snapshot.notes@[n].revisions@[k]@ == self@.note(id, k));
                    assert(self@.notes[id][k] == kept(self@.note(id, k)));
                }
                assert(history_view(entries[n].history@) =~= kept_all(v.notes[n].revisions));
            }
            assert forall|n: int, k: int|
                0 <= n < v.notes.len() && 0 <= k < v.notes[n].revisions.len() implies (
            #[trigger] v.notes[n].revisions[k]).id == v.notes[n].id by {
                assert(v.notes[n] == snapshot.notes@[n]@);
                assert(snapshot.notes@[n].revisions@[k]@ == self@.note(entries[n].id@, k));
            }
            assert(aligned(entries, v));
            assert forall|n: int| 0 <= n < entries.len() implies (#[trigger] entries[n]).live
                == v.marks(entries[n].id@) by {
                if entries[n].live {
                    let c = choose|c: int| 0 <= c < owners.len() && #[trigger] owners[c] == n;
                    assert(v.current_revision[c] == snapshot.current_revision@[c]@);
                    assert(v.marks_at(entries[n].id@, c));
                }
                if v.marks(entries[n].id@) {
                    let c = v.mark(entries[n].id@);
                    assert(v.marks_at(entries[n].id@, c));
                    assert(v.current_revision[c] == snapshot.current_revision@[c]@);
                    let m = owners[c];
                    assert(entries[m].id@ == entries[n].id@);
                    self.lemma_place(m);
                    self.lemma_place(n);
                }
            }
            assert forall|c: int| 0 <= c < v.current_revision.len() implies v.holds(
                (#[trigger] v.current_revision[c]).0,
            ) && v.current_revision[c].1 == v.notes[v.place(
                v.current_revision[c].0,
            )].revisions.last().revision by {
                assert(v.current_revision[c] == snapshot.current_revision@[c]@);
                let m = owners[c];
                let id = entries[m].id@;
                self.lemma_place(m);
                self.lemma_entry(id);
                lemma_place_aligned(entries, index, v, id);
                assert(v.notes[m] == snapshot.notes@[m]@);
                let last = entries[m].history@.len() - 1;
                assert(snapshot.notes@[m].revisions@[last]@ == self@.note(id, last));
                assert(v.notes[m].revisions[last] == self@.note(id, last));
            }
            assert(marked(entries, v));
            lemma_described(entries, index, v);
        }
        snapshot
    }

    /// The store that a snapshot describes. Of each note the snapshot's
    /// identity, content, own links, metadata and times are taken; the links
    /// that lead to a note follow from the other notes. Fails where the
    /// snapshot describes no store.
    pub fn restore(snapshot: &StoreSnapshot<T>) -> (r: Result<Self, NoteStoreError>)
        ensures
            match snapshot@.restored() {
                Ok(s) => r matches Ok(store) && store@ == s,
                Err(e) => r matches Err(err) && err@ == e,
            },
    {
        let ghost v = snapshot@;
        let mut entries: Vec<Entry<T>> = Vec::new();
        let ghost mut index: Map<Seq<char>, int> = Map::empty();
        let mut i: usize = 0;
        while i < snapshot.notes.len()
            invariant
                v == snapshot@,
                i <= snapshot.notes@.len(),
                entries@.len() == i,
                linked(entries@, index),
                records_ok(entries@),
                forall|n: int|
                    0 <= n < i ==> (#[trigger] entries@[n]).id@ == v.notes[n].id && history_view(
                        entries@[n].history@,
                    ) == kept_all(v.notes[n].revisions)
                        && !entries@[n].live,
                forall|n: int, k: int|
                    0 <= n < i && 0 <= k < v.notes[n].revisions.len() ==> (
                    #[trigger] v.notes[n].revisions[k]).id == v.notes[n].id,
            decreases snapshot.notes@.len() - i,
        {
            let history = &snapshot.notes[i];
            assert(v.notes[i as int] == history@);
            match position(&entries, &history.id) {
                Some(n) => {
                    assert(v.notes[n as int].id == v.notes[i as int].id);
                    return Err(NoteStoreError::CorruptSnapshot);
                },
                None => {},
            }
            let records = match records_of(history) {
                Some(records) => records,
                None => {
                    proof {
                        if v.notes[i as int].revisions.len() != 0 {
                            let k = choose|k: int|
                                0 <= k < history@.revisions.len() && (
                                #[trigger] history@.revisions[k]).id != history@.id;
                            assert(v.notes[i as int].revisions[k].id != v.notes[i as int].id);
                        }
                    }
                    return Err(NoteStoreError::CorruptSnapshot);
                },
            };
            let ghost before = entries@;
            let ghost id = history.id@;
            entries.push(Entry { id: history.id.clone(), history: records, live: false });
            proof {
                assert(forall|n: int| 0 <= n < i ==> entries@[n] == before[n]);
                assert(!index.dom().contains(id)) by {
                    if index.dom().contains(id) {
                        assert(before[index[id]].id@ == id);
                    }
                }
                index = index.insert(id, i as int);
                assert forall|n: int, k: int|
                    0 <= n < entries@.len() && 0 <= k < entries@[n].history@.len()
                        implies record_ok(#[trigger] entries@[n].history@[k]) by {
                    if n < i {
                        assert(record_ok(before[n].history@[k]));
                    }
                }
                assert forall|n: int| 0 <= n < entries@.len() implies (
                #[trigger] entries@[n]).history@.len() > 0 by {
                    if n < i {
                        assert(before[n].history@.len() > 0);
                    } else {
                        assert(history_view(entries@[n].history@).len()
                            == v.notes[n].revisions.len());
                    }
                }
            }
            i += 1;
        }
        let mut c: usize = 0;
        while c < snapshot.current_revision.len()
            invariant
                v == snapshot@,
                c <= snapshot.current_revision@.len(),
                linked(entries@, index),
                records_ok(entries@),
                aligned(entries@, v),
                forall|n: int|
                    0 <= n < entries@.len() ==> (#[trigger] entries@[n]).live == exists|d: int|
                        0 <= d < c && v.marks_at(entries@[n].id@, d),
                forall|d: int|
                    0 <= d < c ==> v.holds((#[trigger] v.current_revision[d]).0)
                        && v.current_revision[d].1 == v.notes[v.place(
                        v.current_revision[d].0,
                    )].revisions.last().revision,
            decreases snapshot.current_revision@.len() - c,
        {
            let named = &snapshot.current_revision[c];
            assert(v.current_revision[c as int] == named@);
            let ghost id = named.id@;
            proof {
                lemma_place_aligned(entries@, index, v, id);
            }
            let n = match position(&entries, &named.id) {
                Some(n) => n,
                None => {
                    proof {
                        if v.holds(id) {
                            assert(entries@[index[id]].id@ == id);
                        }
                        assert(!v.holds(v.current_revision[c as int].0));
                    }
                    return Err(NoteStoreError::CorruptSnapshot);
                },
            };
            proof {
                assert(index[id] == n);
                let revisions = v.notes[n as int].revisions;
                let images = kept_all(revisions);
                assert(history_view(entries@[n as int].history@) == images);
                assert(entries@[n as int].history@.len() > 0);
                assert(images.len() == revisions.len());
                let last = revisions.len() - 1;
                assert(images[last] == kept(revisions[last]));
                assert(history_view(entries@[n as int].history@)[last]
                    == entries@[n as int].history@[last]@);
            }
            if entries[n].history[entries[n].history.len() - 1].revision != named.revision {
                assert(v.current_revision[c as int].1 != v.notes[v.place(
                    v.current_revision[c as int].0,
                )].revisions.last().revision);
                return Err(NoteStoreError::CorruptSnapshot);
            }
            let ghost before = entries@;
            entries[n].live = true;
            proof {
                assert(forall|m: int|
                    0 <= m < entries@.len() ==> (#[trigger] entries@[m]).id == before[m].id
                        && entries@[m].history == before[m].history);
                assert forall|m: int| 0 <= m < entries@.len() implies (
                #[trigger] entries@[m]).live == exists|d: int|
                    0 <= d < c + 1 && v.marks_at(entries@[m].id@, d) by {
                    if m == n {
                        assert(v.marks_at(entries@[m].id@, c as int));
                    } else {
                        assert(before[m].live == exists|d: int|
                            0 <= d < c && v.marks_at(before[m].id@, d));
                        assert(!v.marks_at(entries@[m].id@, c as int)) by {
                            if v.marks_at(entries@[m].id@, c as int) {
                                assert(entries@[m].id@ == entries@[n as int].id@);
                            }
                        }
                    }
                }
                assert forall|m: int, k: int|
                    0 <= m < entries@.len() && 0 <= k < entries@[m].history@.len()
                        implies record_ok(#[trigger] entries@[m].history@[k]) by {
                    assert(record_ok(before[m].history@[k]));
                }
                assert forall|m: int| 0 <= m < entries@.len() implies (
                #[trigger] entries@[m]).history@.len() > 0 by {
                    assert(before[m].history@.len() > 0);
                }
                assert forall|m: int| 0 <= m < entries@.len() implies (#[trigger] entries@[m]).id@
                    == v.notes[m].id && history_view(entries@[m].history@)
                    == kept_all(v.notes[m].revisions) by {
                    assert(before[m].id@ == v.notes[m].id);
                }
                assert forall|x: Seq<char>| #[trigger] index.dom().contains(x) implies 0
                    <= index[x] < entries@.len() && entries@[index[x]].id@ == x by {
                    assert(before[index[x]].id@ == x);
                }
                assert forall|m: int| 0 <= m < entries@.len() implies index.dom().contains(
                    (#[trigger] entries@[m]).id@,
                ) && index[entries@[m].id@] == m by {
                    assert(index.dom().contains(before[m].id@) && index[before[m].id@] == m);
                }
            }
            c += 1;
        }
        proof {
            assert forall|n: int| 0 <= n < entries@.len() implies (#[trigger] entries@[n]).live
                == v.marks(entries@[n].id@) by {
                if v.marks(entries@[n].id@) {
                    let d = v.mark(entries@[n].id@);
                    assert(v.marks_at(entries@[n].id@, d));
                }
            }
            assert(marked(entries@, v));
            lemma_described(entries@, index, v);
            lemma_wf_entries(entries@, index);
        }
        if !check_revisions_differ(&entries) || !check_links_exclusive(&entries)
            || !check_successors_differ(&entries) {
            return Err(NoteStoreError::CorruptSnapshot);
        }
        Ok(InMemoryStore { entries, index: Ghost(index) })
    }
}

} // verus!
