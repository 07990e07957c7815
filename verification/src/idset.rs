//! Collections of note identities and of texts, kept in vectors and read as
//! sets.
use vstd::prelude::*;
use crate::note::NoteID;

verus! {

/// The identifier texts of `s`, in order.
pub open spec fn id_seq(s: Seq<NoteID>) -> Seq<Seq<char>> {
    s.map_values(|n: NoteID| n@)
}

/// The identifier texts of `s`, as a set.
pub open spec fn id_set(s: Seq<NoteID>) -> Set<Seq<char>> {
    id_seq(s).to_set()
}

/// The view of an optional identity.
pub open spec fn id_option(o: Option<NoteID>) -> Option<Seq<char>> {
    match o {
        Some(id) => Some(id@),
        None => None,
    }
}

/// The texts of `s`, in order.
pub open spec fn text_seq(s: Seq<String>) -> Seq<Seq<char>> {
    s.map_values(|t: String| t@)
}

/// The texts of `s`, as a set.
pub open spec fn text_set(s: Seq<String>) -> Set<Seq<char>> {
    text_seq(s).to_set()
}

/// Appending an identity adds its text to the set.
pub proof fn lemma_id_set_push(s: Seq<NoteID>, id: NoteID)
    ensures
        id_seq(s.push(id)) == id_seq(s).push(id@),
        id_set(s.push(id)) == id_set(s).insert(id@),
{
    assert(id_seq(s.push(id)) =~= id_seq(s).push(id@));
    lemma_push_to_set(id_seq(s), id@);
}

/// Appending a text adds it to the set.
pub proof fn lemma_text_set_push(s: Seq<String>, t: String)
    ensures
        text_seq(s.push(t)) == text_seq(s).push(t@),
        text_set(s.push(t)) == text_set(s).insert(t@),
{
    assert(text_seq(s.push(t)) =~= text_seq(s).push(t@));
    lemma_push_to_set(text_seq(s), t@);
}

/// Appending an element adds it to the set of elements.
pub proof fn lemma_push_to_set<A>(s: Seq<A>, a: A)
    ensures
        s.push(a).to_set() == s.to_set().insert(a),
{
    assert forall|x: A| s.push(a).to_set().contains(x) <==> s.to_set().insert(a).contains(x) by {
        if s.push(a).contains(x) {
            let i = choose|i: int| 0 <= i < s.push(a).len() && s.push(a)[i] == x;
            if i < s.len() {
                assert(s[i] == x);
            }
        }
        if s.contains(x) {
            let i = choose|i: int| 0 <= i < s.len() && s[i] == x;
            assert(s.push(a)[i] == x);
        }
        if x == a {
            assert(s.push(a)[s.len() as int] == a);
        }
    }
    assert(s.push(a).to_set() =~= s.to_set().insert(a));
}

/// The empty sequence holds no element.
pub proof fn lemma_empty_to_set<A>()
    ensures
        Seq::<A>::empty().to_set() == Set::<A>::empty(),
{
    assert(Seq::<A>::empty().to_set() =~= Set::<A>::empty());
}

/// Whether `id` is among `ids`.
pub fn contains_id(ids: &Vec<NoteID>, id: &NoteID) -> (found: bool)
    ensures
        found == id_set(ids@).contains(id@),
{
    let mut i: usize = 0;
    while i < ids.len()
        invariant
            i <= ids.len(),
            forall|j: int| 0 <= j < i ==> (#[trigger] ids@[j])@ != id@,
        decreases ids.len() - i,
    {
        if ids[i] == *id {
            assert(id_seq(ids@)[i as int] == id@);
            return true;
        }
        i += 1;
    }
    assert(!id_seq(ids@).contains(id@)) by {
        if id_seq(ids@).contains(id@) {
            let j = choose|j: int| 0 <= j < id_seq(ids@).len() && id_seq(ids@)[j] == id@;
            assert((ids@[j])@ == id@);
        }
    }
    false
}

/// A copy of `ids`, identity by identity.
pub fn clone_ids(ids: &Vec<NoteID>) -> (copy: Vec<NoteID>)
    ensures
        id_seq(copy@) == id_seq(ids@),
{
    let mut copy: Vec<NoteID> = Vec::new();
    let mut i: usize = 0;
    while i < ids.len()
        invariant
            i <= ids.len(),
            copy@.len() == i,
            forall|j: int| 0 <= j < i ==> (#[trigger] copy@[j])@ == (ids@[j])@,
        decreases ids.len() - i,
    {
        copy.push(ids[i].clone());
        i += 1;
    }
    assert(id_seq(copy@) =~= id_seq(ids@));
    copy
}

/// A copy of an optional identity.
pub fn clone_id_option(o: &Option<NoteID>) -> (copy: Option<NoteID>)
    ensures
        id_option(copy) == id_option(*o),
{
    match o {
        Some(id) => Some(id.clone()),
        None => None,
    }
}

/// Whether `o` holds the identity `id`.
pub fn option_is_id(o: &Option<NoteID>, id: &NoteID) -> (same: bool)
    ensures
        same == (id_option(*o) == Some(id@)),
{
    match o {
        Some(held) => *held == *id,
        None => false,
    }
}

/// The identities of `ids` with every repetition after the first removed.
pub fn distinct_ids(ids: &Vec<NoteID>) -> (out: Vec<NoteID>)
    ensures
        id_set(out@) == id_set(ids@),
        id_seq(out@).no_duplicates(),
{
    let mut out: Vec<NoteID> = Vec::new();
    let mut i: usize = 0;
    proof {
        lemma_empty_to_set::<Seq<char>>();
        assert(id_seq(out@) =~= Seq::empty());
        assert(id_seq(ids@.take(0)) =~= Seq::empty());
    }
    while i < ids.len()
        invariant
            i <= ids.len(),
            id_set(out@) == id_set(ids@.take(i as int)),
            id_seq(out@).no_duplicates(),
        decreases ids.len() - i,
    {
        proof {
            assert(ids@.take(i as int + 1) =~= ids@.take(i as int).push(ids@[i as int]));
            lemma_id_set_push(ids@.take(i as int), ids@[i as int]);
        }
        if !contains_id(&out, &ids[i]) {
            let id = ids[i].clone();
            proof {
                lemma_id_set_push(out@, id);
                assert(!id_seq(out@).contains(id@));
            }
            out.push(id);
        } else {
            assert(id_set(out@).insert(ids@[i as int]@) =~= id_set(out@));
        }
        i += 1;
    }
    assert(ids@.take(ids@.len() as int) =~= ids@);
    out
}

/// Whether `text` is among `texts`.
pub fn contains_text(texts: &Vec<String>, text: &String) -> (found: bool)
    ensures
        found == text_set(texts@).contains(text@),
{
    let mut i: usize = 0;
    while i < texts.len()
        invariant
            i <= texts.len(),
            forall|j: int| 0 <= j < i ==> (#[trigger] texts@[j])@ != text@,
        decreases texts.len() - i,
    {
        if texts[i] == *text {
            assert(text_seq(texts@)[i as int] == text@);
            return true;
        }
        i += 1;
    }
    assert(!text_seq(texts@).contains(text@)) by {
        if text_seq(texts@).contains(text@) {
            let j = choose|j: int| 0 <= j < text_seq(texts@).len() && text_seq(texts@)[j] == text@;
            assert((texts@[j])@ == text@);
        }
    }
    false
}

/// A copy of `texts`, text by text.
pub fn clone_texts(texts: &Vec<String>) -> (copy: Vec<String>)
    ensures
        text_seq(copy@) == text_seq(texts@),
{
    let mut copy: Vec<String> = Vec::new();
    let mut i: usize = 0;
    while i < texts.len()
        invariant
            i <= texts.len(),
            copy@.len() == i,
            forall|j: int| 0 <= j < i ==> (#[trigger] copy@[j])@ == (texts@[j])@,
        decreases texts.len() - i,
    {
        copy.push(texts[i].clone());
        i += 1;
    }
    assert(text_seq(copy@) =~= text_seq(texts@));
    copy
}

/// The texts of `texts` with every repetition after the first removed.
pub fn distinct_texts(texts: &Vec<String>) -> (out: Vec<String>)
    ensures
        text_set(out@) == text_set(texts@),
        text_seq(out@).no_duplicates(),
{
    let mut out: Vec<String> = Vec::new();
    let mut i: usize = 0;
    proof {
        lemma_empty_to_set::<Seq<char>>();
        assert(text_seq(out@) =~= Seq::empty());
        assert(text_seq(texts@.take(0)) =~= Seq::empty());
    }
    while i < texts.len()
        invariant
            i <= texts.len(),
            text_set(out@) == text_set(texts@.take(i as int)),
            text_seq(out@).no_duplicates(),
        decreases texts.len() - i,
    {
        proof {
            assert(texts@.take(i as int + 1) =~= texts@.take(i as int).push(texts@[i as int]));
            lemma_text_set_push(texts@.take(i as int), texts@[i as int]);
        }
        if !contains_text(&out, &texts[i]) {
            let text = texts[i].clone();
            proof {
                lemma_text_set_push(out@, text);
                assert(!text_seq(out@).contains(text@));
            }
            out.push(text);
        } else {
            assert(text_set(out@).insert(texts@[i as int]@) =~= text_set(out@));
        }
        i += 1;
    }
    assert(texts@.take(texts@.len() as int) =~= texts@);
    out
}

} // verus!
