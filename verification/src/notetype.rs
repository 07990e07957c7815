//! What the store asks of a note's content, and plain text as one form of
//! content.
use vstd::prelude::*;
use crate::idset::{clone_ids, id_seq, id_set, lemma_empty_to_set};
use crate::note::NoteID;

verus! {

/// The capability that the store needs of a note's content, whatever its
/// format: to name the notes that it refers to, to give the text that a search
/// reads, and to be copied into the next revision.
///
/// The view of a content is what the store's contracts speak of; its
/// references and its text are functions of the view.
pub trait NoteType: Sized + View {
    /// The identities that a content with this view refers to.
    spec fn references(content: Self::V) -> Set<Seq<char>>;

    /// The text of a content with this view, as a search reads it.
    spec fn text(content: Self::V) -> Seq<char>;

    /// The identities that the content refers to, in any order.
    fn get_references(&self) -> (refs: Vec<NoteID>)
        ensures
            id_set(refs@) == Self::references(self@),
    ;

    /// The text of the content.
    fn get_text(&self) -> (text: String)
        ensures
            text@ == Self::text(self@),
    ;

    /// A copy of the content, with the same view.
    fn duplicate(&self) -> (copy: Self)
        ensures
            copy@ == self@,
    ;
}

/// Content that is plain text and refers to no other note.
#[derive(Debug)]
pub struct PlainNote {
    body: String,
}

impl View for PlainNote {
    type V = Seq<char>;

    closed spec fn view(&self) -> Seq<char> {
        self.body@
    }
}

impl PlainNote {
    /// Plain content with the text `body`.
    pub fn new(body: String) -> (note: Self)
        ensures
            note@ == body@,
    {
        PlainNote { body }
    }

    /// The text of the content.
    pub fn as_str(&self) -> (s: &str)
        ensures
            s@ == self@,
    {
        self.body.as_str()
    }
}

impl NoteType for PlainNote {
    open spec fn references(content: Seq<char>) -> Set<Seq<char>> {
        Set::empty()
    }

    open spec fn text(content: Seq<char>) -> Seq<char> {
        content
    }

    fn get_references(&self) -> (refs: Vec<NoteID>) {
        let refs: Vec<NoteID> = Vec::new();
        proof {
            lemma_empty_to_set::<Seq<char>>();
            assert(id_seq(refs@) =~= Seq::empty());
        }
        refs
    }

    fn get_text(&self) -> (text: String) {
        self.body.clone()
    }

    fn duplicate(&self) -> (copy: Self) {
        PlainNote { body: self.body.clone() }
    }
}

impl Clone for PlainNote {
    fn clone(&self) -> (copy: Self)
        ensures
            copy@ == self@,
    {
        self.duplicate()
    }
}

impl PartialEq for PlainNote {
    fn eq(&self, other: &Self) -> (r: bool) {
        self.body == other.body
    }
}

impl Eq for PlainNote {

}

impl vstd::std_specs::cmp::PartialEqSpecImpl for PlainNote {
    open spec fn obeys_eq_spec() -> bool {
        true
    }

    open spec fn eq_spec(&self, other: &Self) -> bool {
        self@ == other@
    }
}

/// What a linked note says: its text and the notes that it links to.
pub struct LinkedView {
    pub body: Seq<char>,
    pub links: Set<Seq<char>>,
}

/// Content whose links are given beside its text: for any format whose links
/// are found by other means.
#[derive(Debug)]
pub struct LinkedNote {
    body: String,
    links: Vec<NoteID>,
}

impl View for LinkedNote {
    type V = LinkedView;

    closed spec fn view(&self) -> LinkedView {
        LinkedView { body: self.body@, links: id_set(self.links@) }
    }
}

impl LinkedNote {
    /// Content with the text `body` that refers to the notes `links`.
    pub fn new(body: String, links: Vec<NoteID>) -> (note: Self)
        ensures
            note@ == (LinkedView { body: body@, links: id_set(links@) }),
    {
        LinkedNote { body, links }
    }

    /// The text of the content.
    pub fn as_str(&self) -> (s: &str)
        ensures
            s@ == self@.body,
    {
        self.body.as_str()
    }
}

impl NoteType for LinkedNote {
    open spec fn references(content: LinkedView) -> Set<Seq<char>> {
        content.links
    }

    open spec fn text(content: LinkedView) -> Seq<char> {
        content.body
    }

    fn get_references(&self) -> (refs: Vec<NoteID>) {
        clone_ids(&self.links)
    }

    fn get_text(&self) -> (text: String) {
        self.body.clone()
    }

    fn duplicate(&self) -> (copy: Self) {
        LinkedNote { body: self.body.clone(), links: clone_ids(&self.links) }
    }
}

impl Clone for LinkedNote {
    fn clone(&self) -> (copy: Self)
        ensures
            copy@ == self@,
    {
        self.duplicate()
    }
}

} // verus!
