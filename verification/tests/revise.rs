use notegraf::note::{NoteID, Revision};
use notegraf::notemetadata::NoteMetadataEditable;
use notegraf::notestore::revise::{drafted, relinked, revised};
use notegraf::notetype::LinkedNote;

fn id(text: &str) -> NoteID {
    NoteID::new(text.to_owned())
}

fn rev(text: &str) -> Revision {
    Revision::new(text.to_owned())
}

fn linked(text: &str, links: &[&str]) -> LinkedNote {
    LinkedNote::new(text.to_owned(), links.iter().map(|l| id(l)).collect())
}

fn tagged(tags: &[&str], custom: &str) -> NoteMetadataEditable {
    NoteMetadataEditable {
        tags: Some(tags.iter().map(|t| t.to_string()).collect()),
        custom_metadata: Some(custom.to_owned()),
    }
}

#[test]
fn a_draft_is_what_it_was_given() {
    let note = drafted(
        id("a"),
        rev("a1"),
        7,
        "Title".into(),
        linked("body", &["x", "x", "y"]),
        tagged(&["t", "t"], "{}"),
        None,
        Some(id("p")),
    );
    assert_eq!(note.id, id("a"));
    assert_eq!(note.revision, rev("a1"));
    assert_eq!(note.title, "Title");
    assert_eq!(note.note_inner.as_str(), "body");
    assert_eq!(note.parent, None);
    assert_eq!(note.prev, Some(id("p")));
    assert_eq!(note.next, None);
    assert!(note.branches.is_empty());
    assert!(note.referents.is_empty());
    assert_eq!(note.references, vec![id("x"), id("y")]);
    assert_eq!(note.metadata.get_tags(), &vec!["t".to_string()]);
    assert_eq!(note.metadata.get_custom_metadata(), "{}");
    assert_eq!(note.created_at, 7);
    assert_eq!(note.modified_at, 7);
}

#[test]
fn a_revision_copies_forward_what_the_patch_does_not_name() {
    let mut old = drafted(
        id("a"),
        rev("a1"),
        7,
        "Title".into(),
        linked("body", &["x"]),
        tagged(&["t"], "{}"),
        Some(id("p")),
        None,
    );
    old.branches = vec![id("c")];
    old.next = Some(id("n"));
    old.referents = vec![id("r")];

    let same = revised(&old, rev("a2"), 9, None, None, NoteMetadataEditable::unchanged());
    assert_eq!(same.id, id("a"));
    assert_eq!(same.revision, rev("a2"));
    assert_eq!(same.title, "Title");
    assert_eq!(same.note_inner.as_str(), "body");
    assert_eq!(same.parent, Some(id("p")));
    assert_eq!(same.prev, None);
    assert_eq!(same.branches, vec![id("c")]);
    assert_eq!(same.next, Some(id("n")));
    assert_eq!(same.referents, vec![id("r")]);
    assert_eq!(same.references, vec![id("x")]);
    assert_eq!(same.metadata.get_tags(), &vec!["t".to_string()]);
    assert_eq!(same.metadata.get_custom_metadata(), "{}");
    assert_eq!(same.created_at, 7);
    assert_eq!(same.modified_at, 9);

    let changed = revised(
        &old,
        rev("a3"),
        11,
        Some("New".into()),
        Some(linked("other", &["y", "z"])),
        NoteMetadataEditable {
            tags: Some(vec!["u".into()]),
            custom_metadata: None,
        },
    );
    assert_eq!(changed.title, "New");
    assert_eq!(changed.note_inner.as_str(), "other");
    assert_eq!(changed.references, vec![id("y"), id("z")]);
    assert_eq!(changed.metadata.get_tags(), &vec!["u".to_string()]);
    assert_eq!(changed.metadata.get_custom_metadata(), "{}");
    assert_eq!(changed.parent, Some(id("p")));
    assert_eq!(changed.created_at, 7);
    assert_eq!(changed.modified_at, 11);
}

#[test]
fn a_successor_takes_over_the_links_of_the_deleted_note() {
    let gone = drafted(
        id("a"),
        rev("a1"),
        1,
        "A".into(),
        linked("a", &[]),
        NoteMetadataEditable::unchanged(),
        Some(id("root")),
        None,
    );
    let old = drafted(
        id("b"),
        rev("b1"),
        2,
        "B".into(),
        linked("b", &["x"]),
        tagged(&["t"], "c"),
        None,
        Some(id("a")),
    );
    let note = relinked(&old, &gone, rev("b2"), 3);
    assert_eq!(note.id, id("b"));
    assert_eq!(note.revision, rev("b2"));
    assert_eq!(note.parent, Some(id("root")));
    assert_eq!(note.prev, None);
    assert_eq!(note.title, "B");
    assert_eq!(note.note_inner.as_str(), "b");
    assert_eq!(note.references, vec![id("x")]);
    assert_eq!(note.metadata.get_tags(), &vec!["t".to_string()]);
    assert_eq!(note.metadata.get_custom_metadata(), "c");
    assert_eq!(note.created_at, 2);
    assert_eq!(note.modified_at, 3);
}
