//! Identities, revisions and locators of notes, and the note itself.
use vstd::prelude::*;
use crate::idset::{
    clone_id_option, clone_ids, distinct_ids, id_option, id_seq, id_set, lemma_empty_to_set,
};
use crate::notemetadata::{MetadataView, NoteMetadata};
use crate::notetype::NoteType;

verus! {

/// The stable identity of a note, shared by all of its revisions.
///
/// Its view is the text of the identifier.
#[derive(Debug, Hash)]
pub struct NoteID {
    id: String,
}

impl View for NoteID {
    type V = Seq<char>;

    closed spec fn view(&self) -> Seq<char> {
        self.id@
    }
}

impl NoteID {
    /// Wraps `id` as a note identity.
    pub fn new(id: String) -> (r: Self)
        ensures
            r@ == id@,
    {
        NoteID { id }
    }

    /// The text of the identifier.
    pub fn as_str(&self) -> (s: &str)
        ensures
            s@ == self@,
    {
        self.id.as_str()
    }

    /// The text of the identifier, owned.
    pub fn into_string(self) -> (s: String)
        ensures
            s@ == self@,
    {
        self.id
    }
}

impl Clone for NoteID {
    fn clone(&self) -> (r: Self)
        ensures
            r@ == self@,
    {
        NoteID { id: self.id.clone() }
    }
}

impl PartialEq for NoteID {
    fn eq(&self, other: &Self) -> (r: bool) {
        self.id == other.id
    }
}

impl Eq for NoteID {

}

impl vstd::std_specs::cmp::PartialEqSpecImpl for NoteID {
    open spec fn obeys_eq_spec() -> bool {
        true
    }

    open spec fn eq_spec(&self, other: &Self) -> bool {
        self@ == other@
    }
}

impl From<String> for NoteID {
    fn from(id: String) -> (r: NoteID)
        ensures
            r@ == id@,
    {
        NoteID { id }
    }
}

impl vstd::std_specs::convert::FromSpecImpl<String> for NoteID {
    open spec fn obeys_from_spec() -> bool {
        true
    }

    closed spec fn from_spec(id: String) -> NoteID {
        NoteID { id }
    }
}

impl<'a> From<&'a str> for NoteID {
    fn from(id: &'a str) -> (r: NoteID)
        ensures
            r@ == id@,
    {
        NoteID::new(id.to_owned())
    }
}

/// What the conversion from a string slice gives is stated by the contract
/// of `from` itself, over the view.
impl<'a> vstd::std_specs::convert::FromSpecImpl<&'a str> for NoteID {
    open spec fn obeys_from_spec() -> bool {
        false
    }

    closed spec fn from_spec(id: &'a str) -> NoteID {
        arbitrary()
    }
}

/// The identity of one immutable snapshot of a note.
///
/// Its view is the text of the identifier.
#[derive(Debug, Hash)]
pub struct Revision {
    revision: String,
}

impl View for Revision {
    type V = Seq<char>;

    closed spec fn view(&self) -> Seq<char> {
        self.revision@
    }
}

impl Revision {
    /// Wraps `revision` as a revision identity.
    pub fn new(revision: String) -> (r: Self)
        ensures
            r@ == revision@,
    {
        Revision { revision }
    }

    /// The text of the identifier.
    pub fn as_str(&self) -> (s: &str)
        ensures
            s@ == self@,
    {
        self.revision.as_str()
    }

    /// The text of the identifier, owned.
    pub fn into_string(self) -> (s: String)
        ensures
            s@ == self@,
    {
        self.revision
    }
}

impl Clone for Revision {
    fn clone(&self) -> (r: Self)
        ensures
            r@ == self@,
    {
        Revision { revision: self.revision.clone() }
    }
}

impl PartialEq for Revision {
    fn eq(&self, other: &Self) -> (r: bool) {
        self.revision == other.revision
    }
}

impl Eq for Revision {

}

impl vstd::std_specs::cmp::PartialEqSpecImpl for Revision {
    open spec fn obeys_eq_spec() -> bool {
        true
    }

    open spec fn eq_spec(&self, other: &Self) -> bool {
        self@ == other@
    }
}

impl From<String> for Revision {
    fn from(revision: String) -> (r: Revision)
        ensures
            r@ == revision@,
    {
        Revision { revision }
    }
}

impl vstd::std_specs::convert::FromSpecImpl<String> for Revision {
    open spec fn obeys_from_spec() -> bool {
        true
    }

    closed spec fn from_spec(revision: String) -> Revision {
        Revision { revision }
    }
}

impl<'a> From<&'a str> for Revision {
    fn from(revision: &'a str) -> (r: Revision)
        ensures
            r@ == revision@,
    {
        Revision::new(revision.to_owned())
    }
}

/// What the conversion from a string slice gives is stated by the contract
/// of `from` itself, over the view.
impl<'a> vstd::std_specs::convert::FromSpecImpl<&'a str> for Revision {
    open spec fn obeys_from_spec() -> bool {
        false
    }

    closed spec fn from_spec(revision: &'a str) -> Revision {
        arbitrary()
    }
}

/// What a locator says, over the texts of the identifiers.
pub enum LocatorView {
    Current(Seq<char>),
    Specific(Seq<char>, Seq<char>),
}

impl LocatorView {
    /// The identity that the locator names.
    pub open spec fn id(self) -> Seq<char> {
        match self {
            LocatorView::Current(id) => id,
            LocatorView::Specific(id, _) => id,
        }
    }

    /// The revision that the locator pins, if it pins one.
    pub open spec fn revision(self) -> Option<Seq<char>> {
        match self {
            LocatorView::Current(_) => None,
            LocatorView::Specific(_, rev) => Some(rev),
        }
    }
}

/// A reference to a note: to whatever revision is current, or to one pinned
/// revision.
#[derive(Debug)]
pub enum NoteLocator {
    Current(NoteID),
    Specific(NoteID, Revision),
}

impl View for NoteLocator {
    type V = LocatorView;

    open spec fn view(&self) -> LocatorView {
        match self {
            NoteLocator::Current(id) => LocatorView::Current(id@),
            NoteLocator::Specific(id, rev) => LocatorView::Specific(id@, rev@),
        }
    }
}

/// The view of an optional revision.
pub open spec fn revision_view(r: Option<&Revision>) -> Option<Seq<char>> {
    match r {
        Some(rev) => Some(rev@),
        None => None,
    }
}

impl NoteLocator {
    /// The identity that the locator names.
    pub fn get_id(&self) -> (id: &NoteID)
        ensures
            id@ == self@.id(),
    {
        match self {
            NoteLocator::Current(id) => id,
            NoteLocator::Specific(id, _) => id,
        }
    }

    /// The revision that the locator pins; `None` for a locator of the
    /// current revision.
    pub fn get_revision(&self) -> (rev: Option<&Revision>)
        ensures
            revision_view(rev) == self@.revision(),
    {
        if let NoteLocator::Specific(_, rev) = self {
            Some(rev)
        } else {
            None
        }
    }

    /// The identity and the pinned revision, together.
    pub fn unpack(&self) -> (parts: (&NoteID, Option<&Revision>))
        ensures
            parts.0@ == self@.id(),
            revision_view(parts.1) == self@.revision(),
    {
        (self.get_id(), self.get_revision())
    }

    /// A locator that pins revision `r` of the same note.
    pub fn at_revision(&self, r: &Revision) -> (loc: Self)
        ensures
            loc@ == LocatorView::Specific(self@.id(), r@),
    {
        NoteLocator::Specific(self.get_id().clone(), r.clone())
    }

    /// A locator of the current revision of the same note.
    pub fn current(&self) -> (loc: Self)
        ensures
            loc@ == LocatorView::Current(self@.id()),
    {
        NoteLocator::Current(self.get_id().clone())
    }
}

impl Clone for NoteLocator {
    fn clone(&self) -> (r: Self)
        ensures
            r@ == self@,
    {
        match self {
            NoteLocator::Current(id) => NoteLocator::Current(id.clone()),
            NoteLocator::Specific(id, rev) => NoteLocator::Specific(id.clone(), rev.clone()),
        }
    }
}

/// What a note says, over the texts of the identifiers: one revision's full
/// state, with the links that lead to it from other notes.
pub struct NoteView<T: NoteType> {
    pub title: Seq<char>,
    pub note_inner: T::V,
    pub id: Seq<char>,
    pub revision: Seq<char>,
    pub parent: Option<Seq<char>>,
    pub branches: Set<Seq<char>>,
    pub prev: Option<Seq<char>>,
    pub next: Option<Seq<char>>,
    pub references: Set<Seq<char>>,
    pub referents: Set<Seq<char>>,
    pub metadata: MetadataView,
    pub created_at: u128,
    pub modified_at: u128,
}

/// One revision of a note: its content, its place in the graph and the links
/// that lead to it.
///
/// `parent` and `prev` are its own links; `branches`, `next` and `referents`
/// are the notes whose links lead to it. `references` are the notes that its
/// content names. The two times are nanoseconds since the Unix epoch.
#[derive(Debug)]
pub struct Note<T> {
    pub title: String,
    pub note_inner: T,
    pub id: NoteID,
    pub revision: Revision,
    pub parent: Option<NoteID>,
    pub branches: Vec<NoteID>,
    pub prev: Option<NoteID>,
    pub next: Option<NoteID>,
    pub references: Vec<NoteID>,
    pub referents: Vec<NoteID>,
    pub metadata: NoteMetadata,
    pub created_at: u128,
    pub modified_at: u128,
}

impl<T: NoteType> View for Note<T> {
    type V = NoteView<T>;

    open spec fn view(&self) -> NoteView<T> {
        NoteView {
            title: self.title@,
            note_inner: self.note_inner@,
            id: self.id@,
            revision: self.revision@,
            parent: id_option(self.parent),
            branches: id_set(self.branches@),
            prev: id_option(self.prev),
            next: id_option(self.next),
            references: id_set(self.references@),
            referents: id_set(self.referents@),
            metadata: self.metadata@,
            created_at: self.created_at,
            modified_at: self.modified_at,
        }
    }
}

impl<T: NoteType> Note<T> {
    /// A note with the given content, identity, revision and parent, and
    /// nothing else: no title, no other link, no metadata, both times zero.
    /// Its references are those of the content.
    pub fn new(note_inner: T, id: NoteID, revision: Revision, parent: Option<NoteID>) -> (note:
        Self)
        ensures
            note@ == (NoteView::<T> {
                title: Seq::empty(),
                note_inner: note_inner@,
                id: id@,
                revision: revision@,
                parent: id_option(parent),
                branches: Set::empty(),
                prev: None,
                next: None,
                references: T::references(note_inner@),
                referents: Set::empty(),
                metadata: MetadataView::empty(),
                created_at: 0,
                modified_at: 0,
            }),
            id_seq(note.references@).no_duplicates(),
    {
        let references = distinct_ids(&note_inner.get_references());
        let branches: Vec<NoteID> = Vec::new();
        let referents: Vec<NoteID> = Vec::new();
        proof {
            lemma_empty_to_set::<Seq<char>>();
            assert(id_seq(branches@) =~= Seq::empty());
            assert(id_seq(referents@) =~= Seq::empty());
        }
        Note {
            title: String::new(),
            note_inner,
            id,
            revision,
            parent,
            branches,
            prev: None,
            next: None,
            references,
            referents,
            metadata: NoteMetadata::default(),
            created_at: 0,
            modified_at: 0,
        }
    }

    /// The title of the note.
    pub fn get_title(&self) -> (title: String)
        ensures
            title@ == self@.title,
    {
        self.title.clone()
    }

    /// A copy of the content of the note.
    pub fn get_note_inner(&self) -> (content: T)
        ensures
            content@ == self@.note_inner,
    {
        self.note_inner.duplicate()
    }

    /// The identity of the note.
    pub fn get_id(&self) -> (id: NoteID)
        ensures
            id@ == self@.id,
    {
        self.id.clone()
    }

    /// The revision of the note.
    pub fn get_revision(&self) -> (revision: Revision)
        ensures
            revision@ == self@.revision,
    {
        self.revision.clone()
    }

    /// The note that this one branches from.
    pub fn get_parent(&self) -> (parent: Option<NoteID>)
        ensures
            id_option(parent) == self@.parent,
    {
        clone_id_option(&self.parent)
    }

    /// The notes that branch from this one.
    pub fn get_branches(&self) -> (branches: Vec<NoteID>)
        ensures
            id_seq(branches@) == id_seq(self.branches@),
            id_set(branches@) == self@.branches,
    {
        clone_ids(&self.branches)
    }

    /// The note that this one follows in a sequence.
    pub fn get_prev(&self) -> (prev: Option<NoteID>)
        ensures
            id_option(prev) == self@.prev,
    {
        clone_id_option(&self.prev)
    }

    /// The note that follows this one in a sequence.
    pub fn get_next(&self) -> (next: Option<NoteID>)
        ensures
            id_option(next) == self@.next,
    {
        clone_id_option(&self.next)
    }

    /// The notes that refer to this one.
    pub fn get_referents(&self) -> (referents: Vec<NoteID>)
        ensures
            id_seq(referents@) == id_seq(self.referents@),
            id_set(referents@) == self@.referents,
    {
        clone_ids(&self.referents)
    }

    /// The metadata of the note.
    pub fn get_metadata(&self) -> (metadata: NoteMetadata)
        ensures
            metadata@ == self@.metadata,
    {
        self.metadata.clone()
    }

    /// The identities that the note's content refers to, each of them once.
    pub fn get_references(&self) -> (refs: Vec<NoteID>)
        ensures
            id_set(refs@) == T::references(self.note_inner@),
            id_seq(refs@).no_duplicates(),
    {
        distinct_ids(&self.note_inner.get_references())
    }
}

} // verus!
