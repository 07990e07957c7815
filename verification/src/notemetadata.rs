//! What a note carries besides its content: tags and free-form metadata.
use vstd::prelude::*;
use crate::idset::{clone_texts, distinct_texts, lemma_empty_to_set, text_seq, text_set};

verus! {

/// What a note's metadata says: the set of its tags and the text of its
/// free-form metadata.
pub struct MetadataView {
    pub tags: Set<Seq<char>>,
    pub custom_metadata: Seq<char>,
}

/// What a metadata patch says: for each part, the new value, or `None` to keep
/// the old one.
pub struct EditableView {
    pub tags: Option<Set<Seq<char>>>,
    pub custom_metadata: Option<Seq<char>>,
}

impl MetadataView {
    /// The metadata of a note that was given none.
    pub open spec fn empty() -> MetadataView {
        MetadataView { tags: Set::empty(), custom_metadata: Seq::empty() }
    }

    /// This metadata with each part that `patch` names replaced.
    pub open spec fn apply(self, patch: EditableView) -> MetadataView {
        MetadataView {
            tags: match patch.tags {
                Some(tags) => tags,
                None => self.tags,
            },
            custom_metadata: match patch.custom_metadata {
                Some(custom) => custom,
                None => self.custom_metadata,
            },
        }
    }
}

/// The tags of a note, none of them twice, and its free-form metadata, which
/// the store carries as text without reading it.
#[derive(Debug)]
pub struct NoteMetadata {
    tags: Vec<String>,
    custom_metadata: String,
}

impl View for NoteMetadata {
    type V = MetadataView;

    closed spec fn view(&self) -> MetadataView {
        MetadataView { tags: text_set(self.tags@), custom_metadata: self.custom_metadata@ }
    }
}

/// A patch of a note's metadata: each part is replaced where it is `Some`.
#[derive(Debug)]
pub struct NoteMetadataEditable {
    pub tags: Option<Vec<String>>,
    pub custom_metadata: Option<String>,
}

impl View for NoteMetadataEditable {
    type V = EditableView;

    open spec fn view(&self) -> EditableView {
        EditableView {
            tags: match self.tags {
                Some(tags) => Some(text_set(tags@)),
                None => None,
            },
            custom_metadata: match self.custom_metadata {
                Some(custom) => Some(custom@),
                None => None,
            },
        }
    }
}

impl NoteMetadataEditable {
    /// The patch that changes nothing.
    pub fn unchanged() -> (patch: Self)
        ensures
            patch@ == (EditableView { tags: None, custom_metadata: None }),
    {
        NoteMetadataEditable { tags: None, custom_metadata: None }
    }
}

impl NoteMetadata {
    #[verifier::type_invariant]
    spec fn tags_distinct(self) -> bool {
        text_seq(self.tags@).no_duplicates()
    }

    /// The metadata that a patch gives to a note that had none.
    pub fn from_editable(patch: NoteMetadataEditable) -> (metadata: Self)
        ensures
            metadata@ == MetadataView::empty().apply(patch@),
    {
        let tags = match patch.tags {
            Some(tags) => distinct_texts(&tags),
            None => {
                let none: Vec<String> = Vec::new();
                proof {
                    lemma_empty_to_set::<Seq<char>>();
                    assert(text_seq(none@) =~= Seq::empty());
                }
                none
            },
        };
        let custom_metadata = match patch.custom_metadata {
            Some(custom) => custom,
            None => String::new(),
        };
        NoteMetadata { tags, custom_metadata }
    }

    /// This metadata with each part that `patch` names replaced.
    pub fn apply_editable(&self, patch: NoteMetadataEditable) -> (metadata: Self)
        ensures
            metadata@ == self@.apply(patch@),
    {
        proof {
            use_type_invariant(self);
        }
        let tags = match patch.tags {
            Some(tags) => distinct_texts(&tags),
            None => clone_texts(&self.tags),
        };
        let custom_metadata = match patch.custom_metadata {
            Some(custom) => custom,
            None => self.custom_metadata.clone(),
        };
        NoteMetadata { tags, custom_metadata }
    }

    /// The tags, each of them once.
    pub fn get_tags(&self) -> (tags: &Vec<String>)
        ensures
            text_set(tags@) == self@.tags,
            text_seq(tags@).no_duplicates(),
    {
        proof {
            use_type_invariant(self);
        }
        &self.tags
    }

    /// The free-form metadata.
    pub fn get_custom_metadata(&self) -> (custom: &String)
        ensures
            custom@ == self@.custom_metadata,
    {
        &self.custom_metadata
    }
}

impl Default for NoteMetadata {
    fn default() -> (metadata: Self)
        ensures
            metadata@ == MetadataView::empty(),
    {
        NoteMetadata::from_editable(NoteMetadataEditable::unchanged())
    }
}

impl Clone for NoteMetadata {
    fn clone(&self) -> (copy: Self)
        ensures
            copy@ == self@,
    {
        self.apply_editable(NoteMetadataEditable::unchanged())
    }
}

} // verus!
