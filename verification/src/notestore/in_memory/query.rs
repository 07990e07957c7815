//! Searching the in-memory store and listing its tags.
use vstd::prelude::*;
use crate::idset::{contains_text, lemma_empty_to_set, lemma_text_set_push, text_seq, text_set};
use crate::note::Note;
use crate::notetype::NoteType;
use crate::search::{lowercase, lowered, matches_lowered, occurs_in};
use super::InMemoryStore;

verus! {

impl<T: NoteType> InMemoryStore<T> {
    /// Whether the entry at place `i` is a live note whose current revision
    /// matches a query with the lower-case form `needle`.
    spec fn hit_at(self, i: int, needle: Seq<char>) -> bool {
        let head = self.entries@[i].history@.last();
        self.entries@[i].live && (occurs_in(needle, lowercase(head.title@)) || occurs_in(
            needle,
            lowercase(T::text(head.note_inner@)),
        ))
    }

    /// When the current revision of the entry at place `i` was made.
    spec fn stamp(self, i: int) -> u128 {
        self.entries@[i].history@.last().modified_at
    }

    /// Whether `hits` holds the places of the matching entries before place
    /// `upto`, each of them once, the most recently modified first.
    spec fn hits_upto(self, hits: Seq<usize>, needle: Seq<char>, upto: int) -> bool {
        &&& forall|a: int|
            0 <= a < hits.len() ==> (#[trigger] hits[a]) < upto && self.hit_at(
                hits[a] as int,
                needle,
            )
        &&& forall|j: int|
            0 <= j < upto && #[trigger] self.hit_at(j, needle) ==> hits.contains(j as usize)
        &&& hits.no_duplicates()
        &&& forall|a: int, b: int|
            0 <= a < b < hits.len() ==> self.stamp((#[trigger] hits[a]) as int) >= self.stamp(
                (#[trigger] hits[b]) as int,
            )
    }

    /// The places of the entries that match a query with the lower-case form
    /// `needle`, the most recently modified first.
    fn hits(&self, needle: &Vec<char>) -> (hits: Vec<usize>)
        ensures
            self.hits_upto(hits@, needle@, self.entries@.len() as int),
    {
        let mut hits: Vec<usize> = Vec::new();
        let mut i: usize = 0;
        while i < self.entries.len()
            invariant
                i <= self.entries@.len(),
                self.hits_upto(hits@, needle@, i as int),
            decreases self.entries@.len() - i,
        {
            proof {
                use_type_invariant(self);
            }
            let entry = &self.entries[i];
            let head = &entry.history[entry.history.len() - 1];
            let text = head.note_inner.get_text();
            if entry.live && matches_lowered(needle, head.title.as_str(), text.as_str()) {
                let stamp = head.modified_at;
                let mut p: usize = 0;
                while p < hits.len() && self.stamp_of(hits[p]) >= stamp
                    invariant
                        i < self.entries@.len(),
                        self.hits_upto(hits@, needle@, i as int),
                        p <= hits@.len(),
                        forall|a: int| 0 <= a < p ==> self.stamp(hits@[a] as int) >= stamp,
                    decreases hits@.len() - p,
                {
                    p += 1;
                }
                let ghost before = hits@;
                hits.insert(p, i);
                proof {
                    let after = hits@;
                    assert(forall|a: int| 0 <= a < p ==> after[a] == before[a]);
                    assert(after[p as int] == i);
                    assert(forall|a: int| p < a < after.len() ==> after[a] == before[a - 1]);
                    assert forall|j: int|
                        0 <= j < i + 1 && #[trigger] self.hit_at(j, needle@) implies after.contains(
                        j as usize,
                    ) by {
                        if j < i {
                            assert(before.contains(j as usize));
                            let a = choose|a: int| 0 <= a < before.len() && before[a] == j as usize;
                            if a < p {
                                assert(after[a] == j as usize);
                            } else {
                                assert(after[a + 1] == j as usize);
                            }
                        } else {
                            assert(after[p as int] == j as usize);
                        }
                    }
                    assert forall|a: int, b: int| 0 <= a < b < after.len() implies self.stamp(
                        (#[trigger] after[a]) as int,
                    ) >= self.stamp((#[trigger] after[b]) as int) by {
                        if b == p {
                        } else if a == p {
                            if p < before.len() {
                                assert(self.stamp(before[p as int] as int) >= self.stamp(
                                    before[b - 1] as int,
                                ) || b - 1 == p);
                            }
                        } else if a < p && b > p {
                            assert(self.stamp(before[a] as int) >= self.stamp(
                                before[b - 1] as int,
                            ));
                        } else if a < p {
                            assert(self.stamp(before[a] as int) >= self.stamp(before[b] as int));
                        } else {
                            assert(self.stamp(before[a - 1] as int) >= self.stamp(
                                before[b - 1] as int,
                            ));
                        }
                    }
                    assert forall|a: int, b: int|
                        0 <= a < after.len() && 0 <= b < after.len() && a != b implies after[a]
                        != after[b] by {
                        let x = if a < p {
                            a
                        } else {
                            a - 1
                        };
                        let y = if b < p {
                            b
                        } else {
                            b - 1
                        };
                        if a != p && b != p {
                            assert(before[x] != before[y]);
                        }
                    }
                    assert forall|a: int| 0 <= a < after.len() implies (#[trigger] after[a]) < i
                        + 1 && self.hit_at(after[a] as int, needle@) by {
                        if a < p {
                            assert(after[a] == before[a]);
                        } else if a > p {
                            assert(after[a] == before[a - 1]);
                        }
                    }
                }
            }
            i += 1;
        }
        hits
    }

    /// When the current revision of the entry at place `i` was made.
    fn stamp_of(&self, i: usize) -> (stamp: u128)
        requires
            i < self.entries@.len(),
        ensures
            stamp == self.stamp(i as int),
    {
        proof {
            use_type_invariant(self);
        }
        let entry = &self.entries[i];
        entry.history[entry.history.len() - 1].modified_at
    }

    /// The current revisions of the live notes that match `query`, the most
    /// recently modified first. A note matches where the query stands in its
    /// title or in the text of its content, without regard to case; the empty
    /// query matches every note.
    pub fn search(&self, query: &str) -> (found: Vec<Note<T>>)
        ensures
            self@.is_search_result(query@, found@.map_values(|n: Note<T>| n@)),
    {
        let needle = lowered(query);
        let hits = self.hits(&needle);
        let mut found: Vec<Note<T>> = Vec::new();
        let mut a: usize = 0;
        while a < hits.len()
            invariant
                self.hits_upto(hits@, needle@, self.entries@.len() as int),
                a <= hits@.len(),
                found@.len() == a,
                forall|b: int|
                    0 <= b < a ==> (#[trigger] found@[b])@ == self@.head_note(
                        self.entries@[hits@[b] as int].id@,
                    ),
            decreases hits@.len() - a,
        {
            proof {
                use_type_invariant(self);
                self.lemma_place(hits@[a as int] as int);
                self.lemma_entry(self.entries@[hits@[a as int] as int].id@);
            }
            let i = hits[a];
            found.push(self.assemble(i, self.entries[i].history.len() - 1));
            a += 1;
        }
        proof {
            use_type_invariant(self);
            let views = found@.map_values(|n: Note<T>| n@);
            assert forall|b: int| 0 <= b < views.len() implies self@.hit(
                query@,
                (#[trigger] views[b]).id,
            ) && views[b] == self@.head_note(views[b].id) by {
                let i = hits@[b] as int;
                self.lemma_place(i);
                self.lemma_entry(self.entries@[i].id@);
                assert(found@[b]@ == self@.head_note(self.entries@[i].id@));
            }
            assert forall|id: Seq<char>| #[trigger] self@.hit(query@, id) implies exists|b: int|
                0 <= b < views.len() && (#[trigger] views[b]).id == id by {
                self.lemma_entry(id);
                let i = self.index@[id];
                assert(0 <= i < self.entries.len());
                let place = i as usize;
                assert(self.hit_at(i, needle@));
                assert(hits@.contains(place));
                let b = choose|b: int| 0 <= b < hits@.len() && hits@[b] == place;
                assert(found@[b]@ == self@.head_note(self.entries@[hits@[b] as int].id@));
                assert(views[b] == found@[b]@);
                assert(views[b].id == id);
            }
            assert forall|b: int, c: int| 0 <= b < c < views.len() implies (#[trigger] views[b]).id
                != (#[trigger] views[c]).id && views[b].modified_at >= views[c].modified_at by {
                let i = hits@[b] as int;
                let j = hits@[c] as int;
                self.lemma_place(i);
                self.lemma_place(j);
                self.lemma_entry(self.entries@[i].id@);
                self.lemma_entry(self.entries@[j].id@);
                assert(found@[b]@ == self@.head_note(self.entries@[i].id@));
                assert(found@[c]@ == self@.head_note(self.entries@[j].id@));
                assert(self.stamp(hits@[b] as int) >= self.stamp(hits@[c] as int));
            }
        }
        found
    }

    /// Whether `tag` is a tag of the current revision of the live entry at
    /// place `i`.
    spec fn tag_at(self, i: int, tag: Seq<char>) -> bool {
        self.entries@[i].live && self.entries@[i].history@.last().metadata@.tags.contains(tag)
    }

    /// The tags of the current revisions of all live notes, each of them
    /// once.
    pub fn tags(&self) -> (tags: Vec<String>)
        ensures
            text_set(tags@) == self@.tags(),
            text_seq(tags@).no_duplicates(),
    {
        let mut tags: Vec<String> = Vec::new();
        let mut i: usize = 0;
        proof {
            lemma_empty_to_set::<Seq<char>>();
            assert(text_seq(tags@) =~= Seq::empty());
        }
        while i < self.entries.len()
            invariant
                i <= self.entries@.len(),
                forall|tag: Seq<char>|
                    text_set(tags@).contains(tag) <==> exists|j: int|
                        0 <= j < i && #[trigger] self.tag_at(j, tag),
                text_seq(tags@).no_duplicates(),
            decreases self.entries@.len() - i,
        {
            proof {
                use_type_invariant(self);
            }
            let entry = &self.entries[i];
            if entry.live {
                let own = entry.history[entry.history.len() - 1].metadata.get_tags();
                let mut k: usize = 0;
                while k < own.len()
                    invariant
                        i < self.entries@.len(),
                        self.entries@[i as int].live,
                        text_set(own@) == self.entries@[i as int].history@.last().metadata@.tags,
                        k <= own@.len(),
                        forall|tag: Seq<char>|
                            text_set(tags@).contains(tag) <==> (exists|j: int|
                                0 <= j < i && #[trigger] self.tag_at(j, tag)) || (exists|m: int|
                                0 <= m < k && #[trigger] own@[m]@ == tag),
                        text_seq(tags@).no_duplicates(),
                    decreases own@.len() - k,
                {
                    let ghost before = tags@;
                    if !contains_text(&tags, &own[k]) {
                        let tag = own[k].clone();
                        proof {
                            lemma_text_set_push(tags@, tag);
                            assert(!text_seq(tags@).contains(tag@));
                        }
                        tags.push(tag);
                    }
                    proof {
                        assert(text_set(tags@) =~= text_set(before).insert(own@[k as int]@));
                    }
                    k += 1;
                }
                proof {
                    assert forall|tag: Seq<char>| text_set(tags@).contains(tag) <==> exists|j: int|
                        0 <= j < i + 1 && #[trigger] self.tag_at(j, tag) by {
                        if exists|m: int| 0 <= m < own@.len() && #[trigger] own@[m]@ == tag {
                            let m = choose|m: int| 0 <= m < own@.len() && #[trigger] own@[m]@ == tag;
                            assert(text_seq(own@)[m] == tag);
                            assert(text_set(own@).contains(tag));
                            assert(self.tag_at(i as int, tag));
                        }
                        if self.tag_at(i as int, tag) {
                            assert(text_set(own@).contains(tag));
                            let m = choose|m: int|
                                0 <= m < text_seq(own@).len() && text_seq(own@)[m] == tag;
                            assert(own@[m]@ == tag);
                        }
                    }
                }
            } else {
                assert(forall|tag: Seq<char>| !self.tag_at(i as int, tag));
            }
            i += 1;
        }
        proof {
            use_type_invariant(self);
            assert forall|tag: Seq<char>| text_set(tags@).contains(tag) == self@.tags().contains(
                tag,
            ) by {
                if text_set(tags@).contains(tag) {
                    let j = choose|j: int|
                        0 <= j < self.entries@.len() && #[trigger] self.tag_at(j, tag);
                    let id = self.entries@[j].id@;
                    self.lemma_place(j);
                    self.lemma_entry(id);
                    assert(self@.live(id) && self@.head(id).metadata.tags.contains(tag));
                }
                if self@.tags().contains(tag) {
                    let id = choose|id: Seq<char>|
                        self@.live(id) && #[trigger] self@.head(id).metadata.tags.contains(tag);
                    self.lemma_entry(id);
                    assert(self.tag_at(self.index@[id], tag));
                }
            }
            assert(text_set(tags@) =~= self@.tags());
        }
        tags
    }
}

} // verus!
