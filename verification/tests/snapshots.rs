use notegraf::errors::NoteStoreError;
use notegraf::note::{Note, NoteID, NoteLocator, Revision};
use notegraf::notemetadata::NoteMetadataEditable;
use notegraf::notestore::in_memory::InMemoryStore;
use notegraf::notestore::snapshot::{CurrentRevision, NoteHistory, StoreSnapshot};
use notegraf::notetype::{LinkedNote, PlainNote};

fn id(text: &str) -> NoteID {
    NoteID::new(text.to_owned())
}

fn rev(text: &str) -> Revision {
    Revision::new(text.to_owned())
}

fn none() -> NoteMetadataEditable {
    NoteMetadataEditable::unchanged()
}

fn linked(text: &str, links: &[&str]) -> LinkedNote {
    LinkedNote::new(text.to_owned(), links.iter().map(|l| id(l)).collect())
}

fn note(i: &str, r: &str, parent: Option<&str>, prev: Option<&str>) -> Note<PlainNote> {
    let mut n = Note::new(PlainNote::new(format!("{} {}", i, r)), id(i), rev(r), parent.map(id));
    n.prev = prev.map(id);
    n
}

fn history(i: &str, revisions: Vec<Note<PlainNote>>) -> NoteHistory<PlainNote> {
    NoteHistory { id: id(i), revisions }
}

fn live(i: &str, r: &str) -> CurrentRevision {
    CurrentRevision { id: id(i), revision: rev(r) }
}

fn corrupt(snapshot: &StoreSnapshot<PlainNote>) -> bool {
    matches!(
        InMemoryStore::restore(snapshot),
        Err(NoteStoreError::CorruptSnapshot)
    )
}

#[test]
fn a_store_reads_back_as_it_was() {
    let mut store: InMemoryStore<LinkedNote> = InMemoryStore::new();
    store
        .new_note_with(id("a"), rev("a1"), 1, "A".into(), linked("a", &["c"]), none())
        .unwrap();
    store
        .append_note_with(&id("a"), id("b"), rev("b1"), 2, "B".into(), linked("b", &["a"]), none())
        .unwrap();
    store
        .add_branch_with(
            &id("a"),
            id("c"),
            rev("c1"),
            3,
            "C".into(),
            linked("c", &[]),
            NoteMetadataEditable {
                tags: Some(vec!["t".into()]),
                custom_metadata: Some("{}".into()),
            },
        )
        .unwrap();
    store
        .update_note_with(&NoteLocator::Current(id("b")), rev("b2"), 4, None, Some(linked("b2", &[])), none())
        .unwrap();
    store
        .delete_note_with(&NoteLocator::Current(id("b")), rev("x"), 5)
        .unwrap();

    let snapshot = store.snapshot();
    assert_eq!(snapshot.notes.len(), 3);
    assert_eq!(snapshot.current_revision.len(), 2);
    let back: InMemoryStore<LinkedNote> = InMemoryStore::restore(&snapshot).unwrap();

    for name in ["a", "b", "c"] {
        let before = store.get_revisions(&NoteLocator::Current(id(name))).unwrap();
        let after = back.get_revisions(&NoteLocator::Current(id(name))).unwrap();
        assert_eq!(before.len(), after.len());
        for (x, y) in before.iter().zip(after.iter()) {
            assert_eq!(x.title, y.title);
            assert_eq!(x.note_inner.as_str(), y.note_inner.as_str());
            assert_eq!(x.id, y.id);
            assert_eq!(x.revision, y.revision);
            assert_eq!(x.parent, y.parent);
            assert_eq!(x.branches, y.branches);
            assert_eq!(x.prev, y.prev);
            assert_eq!(x.next, y.next);
            assert_eq!(x.references, y.references);
            assert_eq!(x.referents, y.referents);
            assert_eq!(x.metadata.get_tags(), y.metadata.get_tags());
            assert_eq!(x.metadata.get_custom_metadata(), y.metadata.get_custom_metadata());
            assert_eq!(x.created_at, y.created_at);
            assert_eq!(x.modified_at, y.modified_at);
        }
        assert_eq!(
            store.get_current_revision(&NoteLocator::Current(id(name))).unwrap(),
            back.get_current_revision(&NoteLocator::Current(id(name))).unwrap()
        );
    }
    assert_eq!(back.is_deleted(&NoteLocator::Current(id("b"))).unwrap(), true);
    let c = back.get_note(&NoteLocator::Current(id("c"))).unwrap();
    assert_eq!(c.referents, vec![id("a")]);
    assert_eq!(c.parent, Some(id("a")));
}

#[test]
fn the_empty_snapshot_is_the_empty_store() {
    let snapshot: StoreSnapshot<PlainNote> = StoreSnapshot {
        notes: vec![],
        current_revision: vec![],
    };
    let store = InMemoryStore::restore(&snapshot).unwrap();
    assert!(store.search("").is_empty());
    let written = store.snapshot();
    assert!(written.notes.is_empty());
    assert!(written.current_revision.is_empty());
}

#[test]
fn a_well_formed_snapshot_is_accepted() {
    let snapshot = StoreSnapshot {
        notes: vec![
            history("a", vec![note("a", "1", None, None), note("a", "2", None, None)]),
            history("b", vec![note("b", "1", None, Some("a"))]),
            history("c", vec![note("c", "1", Some("a"), None)]),
            history("d", vec![note("d", "1", None, Some("a"))]),
        ],
        current_revision: vec![live("a", "2"), live("b", "1"), live("c", "1")],
    };
    let store = InMemoryStore::restore(&snapshot).unwrap();
    let a = store.get_note(&NoteLocator::Current(id("a"))).unwrap();
    assert_eq!(a.revision, rev("2"));
    assert_eq!(a.next, Some(id("b")));
    assert_eq!(a.branches, vec![id("c")]);
    assert_eq!(store.is_deleted(&NoteLocator::Current(id("d"))).unwrap(), true);
}

#[test]
fn corrupt_snapshots_are_refused() {
    // one note with two histories
    assert!(corrupt(&StoreSnapshot {
        notes: vec![
            history("a", vec![note("a", "1", None, None)]),
            history("a", vec![note("a", "2", None, None)]),
        ],
        current_revision: vec![],
    }));
    // a history without a revision
    assert!(corrupt(&StoreSnapshot {
        notes: vec![history("a", vec![])],
        current_revision: vec![],
    }));
    // a note under another note's identity
    assert!(corrupt(&StoreSnapshot {
        notes: vec![history("a", vec![note("b", "1", None, None)])],
        current_revision: vec![],
    }));
    // a revision twice in one history
    assert!(corrupt(&StoreSnapshot {
        notes: vec![history("a", vec![note("a", "1", None, None), note("a", "1", None, None)])],
        current_revision: vec![],
    }));
    // a current revision of a note without a history
    assert!(corrupt(&StoreSnapshot {
        notes: vec![history("a", vec![note("a", "1", None, None)])],
        current_revision: vec![live("b", "1")],
    }));
    // a current revision that is not the newest
    assert!(corrupt(&StoreSnapshot {
        notes: vec![history("a", vec![note("a", "1", None, None), note("a", "2", None, None)])],
        current_revision: vec![live("a", "1")],
    }));
    // a note with a parent and a predecessor
    assert!(corrupt(&StoreSnapshot {
        notes: vec![
            history("a", vec![note("a", "1", None, None)]),
            history("b", vec![note("b", "1", Some("a"), Some("a"))]),
        ],
        current_revision: vec![live("a", "1")],
    }));
    // two live successors of one note
    assert!(corrupt(&StoreSnapshot {
        notes: vec![
            history("a", vec![note("a", "1", None, None)]),
            history("b", vec![note("b", "1", None, Some("a"))]),
            history("c", vec![note("c", "1", None, Some("a"))]),
        ],
        current_revision: vec![live("b", "1"), live("c", "1")],
    }));
}
