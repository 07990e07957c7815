use notegraf::note::NoteLocator;
use notegraf::notemetadata::NoteMetadataEditable;
use notegraf::notestore::in_memory::InMemoryStore;
use notegraf::notetype::PlainNote;

fn no_patch() -> NoteMetadataEditable {
    NoteMetadataEditable::unchanged()
}

#[test]
fn unique_id() {
    let mut store: InMemoryStore<PlainNote> = InMemoryStore::new();
    let loc1 = store
        .new_note(String::new(), PlainNote::new("Foo".into()), no_patch())
        .unwrap();
    let loc2 = store
        .new_note(String::new(), PlainNote::new("Bar".into()), no_patch())
        .unwrap();
    assert_ne!(loc1.get_id(), loc2.get_id());
}

#[test]
fn new_note_revision() {
    let mut store: InMemoryStore<PlainNote> = InMemoryStore::new();
    let loc = store
        .new_note(String::new(), PlainNote::new("Foo".into()), no_patch())
        .unwrap();
    let rev = loc.get_revision().unwrap();
    assert_eq!(
        store.get_current_revision(&loc.current()).unwrap().as_ref(),
        Some(rev)
    );
}

#[test]
fn new_note_retrieve() {
    let mut store: InMemoryStore<PlainNote> = InMemoryStore::new();
    let note_inner = PlainNote::new("Foo".into());
    let loc = store
        .new_note(String::new(), note_inner.clone(), no_patch())
        .unwrap();
    assert_eq!(
        store.get_note(&loc.current()).unwrap().note_inner,
        note_inner
    );
    assert_eq!(store.get_note(&loc).unwrap().note_inner, note_inner);
}

#[test]
fn backup() {
    let mut store: InMemoryStore<PlainNote> = InMemoryStore::new();
    let loc1 = store
        .new_note(String::new(), PlainNote::new("Foo".into()), no_patch())
        .unwrap();
    let loc2 = store
        .new_note(String::new(), PlainNote::new("Bar".into()), no_patch())
        .unwrap();

    let snapshot = store.snapshot();
    let store_restore: InMemoryStore<PlainNote> = InMemoryStore::restore(&snapshot).unwrap();
    for loc in vec![loc1, loc2].iter() {
        let note = store.get_note(loc).unwrap();
        let note_restore = store_restore.get_note(loc).unwrap();
        assert_eq!(note.title, note_restore.title);
        assert_eq!(note.note_inner, note_restore.note_inner);
        assert_eq!(note.id, note_restore.id);
        assert_eq!(note.revision, note_restore.revision);
        assert_eq!(note.parent, note_restore.parent);
        assert_eq!(note.branches, note_restore.branches);
        assert_eq!(note.prev, note_restore.prev);
        assert_eq!(note.next, note_restore.next);
        assert_eq!(note.references, note_restore.references);
        assert_eq!(note.referents, note_restore.referents);
        assert_eq!(note.metadata.get_tags(), note_restore.metadata.get_tags());
        assert_eq!(
            note.metadata.get_custom_metadata(),
            note_restore.metadata.get_custom_metadata()
        );
        assert_eq!(note.created_at, note_restore.created_at);
        assert_eq!(note.modified_at, note_restore.modified_at);
    }
}

#[test]
fn update_note() {
    let mut store: InMemoryStore<PlainNote> = InMemoryStore::new();
    let loc1 = store
        .new_note(String::new(), PlainNote::new("Foo".into()), no_patch())
        .unwrap();
    let rev1 = loc1.get_revision().unwrap();
    let created1 = store.get_note(&loc1.current()).unwrap().created_at;
    let modified1 = store.get_note(&loc1.current()).unwrap().modified_at;
    let loc2 = store
        .update_note_content(&loc1, PlainNote::new("Foo1".into()))
        .unwrap();
    let rev2 = loc2.get_revision().unwrap();
    assert_ne!(rev1, rev2);
    assert_eq!(
        store.get_current_revision(&loc1).unwrap().as_ref(),
        Some(rev2)
    );
    assert_eq!(
        store.get_note(&loc1.current()).unwrap().note_inner,
        PlainNote::new("Foo1".into())
    );
    assert_eq!(
        store.get_note(&loc1.at_revision(rev2)).unwrap().note_inner,
        PlainNote::new("Foo1".into())
    );
    assert_ne!(
        store.get_note(&loc1.at_revision(rev2)).unwrap().modified_at,
        modified1
    );
    assert_eq!(
        store.get_note(&loc1.at_revision(rev2)).unwrap().created_at,
        created1
    );
}

#[test]
fn new_note() {
    let mut store: InMemoryStore<PlainNote> = InMemoryStore::new();
    let loc = store
        .new_note(
            "My title".into(),
            PlainNote::new("# Hey Markdown Note\n## H2".into()),
            no_patch(),
        )
        .unwrap();
    assert!(matches!(loc, NoteLocator::Specific(_, _)));
}

#[test]
fn note_retrive() {
    let mut store: InMemoryStore<PlainNote> = InMemoryStore::new();
    let loc1 = store
        .new_note(
            "title".into(),
            PlainNote::new("## body text".into()),
            no_patch(),
        )
        .unwrap();
    let note = store.get_note(&loc1.current()).unwrap();
    assert_eq!(&note.id, loc1.get_id());
    assert_eq!(&note.revision, loc1.get_revision().unwrap());
    assert_eq!(note.next, None);
    assert_eq!(note.title, "title");
    assert_eq!(note.note_inner.as_str(), "## body text");
}

#[test]
fn note_delete() {
    let mut store: InMemoryStore<PlainNote> = InMemoryStore::new();
    let loc1 = store
        .new_note(
            "title".into(),
            PlainNote::new("## body text".into()),
            no_patch(),
        )
        .unwrap();
    store.get_note(&loc1.current()).unwrap();
    store.delete_note(&loc1.current()).unwrap();
    let gone = store.get_note(&loc1.current());
    assert!(matches!(
        gone,
        Err(notegraf::errors::NoteStoreError::NoteDeleted(ref id)) if id == loc1.get_id()
    ));
}

#[test]
fn note_update() {
    let mut store: InMemoryStore<PlainNote> = InMemoryStore::new();
    let loc1 = store
        .new_note(
            "title".into(),
            PlainNote::new("## body text".into()),
            no_patch(),
        )
        .unwrap();
    let loc2 = store
        .update_note(
            &loc1.current(),
            Some("New title".into()),
            Some(PlainNote::new("New body text".into())),
            no_patch(),
        )
        .unwrap();
    let note = store.get_note(&loc1.current()).unwrap();
    assert_eq!(&note.id, loc1.get_id());
    assert_eq!(&note.revision, loc2.get_revision().unwrap());
    assert_eq!(note.next, None);
    assert_eq!(note.title, "New title");
    assert_eq!(note.note_inner.as_str(), "New body text");
}

#[test]
fn note_revisions() {
    let mut store: InMemoryStore<PlainNote> = InMemoryStore::new();
    let loc1 = store
        .new_note(
            "title".into(),
            PlainNote::new("## body text".into()),
            no_patch(),
        )
        .unwrap();
    let loc2 = store
        .update_note(
            &loc1.current(),
            Some("New title".into()),
            Some(PlainNote::new("New body text".into())),
            no_patch(),
        )
        .unwrap();
    let revisions = store.get_revisions(&loc1.current()).unwrap();
    assert_eq!(revisions.len(), 2);
    assert_eq!(&revisions[0].revision, loc1.get_revision().unwrap());
    assert_eq!(&revisions[1].revision, loc2.get_revision().unwrap());
}

#[test]
fn add_branch() {
    let mut store: InMemoryStore<PlainNote> = InMemoryStore::new();
    let loc1 = store
        .new_note(
            "title".into(),
            PlainNote::new("## body text".into()),
            no_patch(),
        )
        .unwrap();
    let loc2 = store
        .add_branch(
            loc1.get_id(),
            "child title".into(),
            PlainNote::new("New body text".into()),
            no_patch(),
        )
        .unwrap();
    let note = store.get_note(&loc1.current()).unwrap();
    assert_eq!(&note.branches[0], loc2.get_id());
    assert_eq!(note.branches.len(), 1);
    let note = store.get_note(&loc2.current()).unwrap();
    assert_eq!(note.parent.as_ref(), Some(loc1.get_id()));
    assert_eq!(note.prev, None);
}

#[test]
fn append_note() {
    let mut store: InMemoryStore<PlainNote> = InMemoryStore::new();
    let loc1 = store
        .new_note(
            "title".into(),
            PlainNote::new("## body text".into()),
            no_patch(),
        )
        .unwrap();
    let loc2 = store
        .append_note(
            loc1.get_id(),
            "next title".into(),
            PlainNote::new("New body text".into()),
            no_patch(),
        )
        .unwrap();
    let note = store.get_note(&loc1.current()).unwrap();
    assert_eq!(note.next.as_ref(), Some(loc2.get_id()));
    let note = store.get_note(&loc2.current()).unwrap();
    assert_eq!(note.prev.as_ref(), Some(loc1.get_id()));
    assert_eq!(note.parent, None);
    let second = store.append_note(
        loc1.get_id(),
        "another".into(),
        PlainNote::new("text".into()),
        no_patch(),
    );
    assert!(matches!(
        second,
        Err(notegraf::errors::NoteStoreError::ExistingNext(ref a, ref b))
            if a == loc1.get_id() && b == loc2.get_id()
    ));
}
