use notegraf::errors::NoteStoreError;
use notegraf::note::{NoteID, NoteLocator, Revision};
use notegraf::notemetadata::NoteMetadataEditable;
use notegraf::notestore::in_memory::InMemoryStore;
use notegraf::notetype::PlainNote;

fn id(text: &str) -> NoteID {
    NoteID::new(text.to_owned())
}

fn rev(text: &str) -> Revision {
    Revision::new(text.to_owned())
}

fn none() -> NoteMetadataEditable {
    NoteMetadataEditable::unchanged()
}

fn plain(text: &str) -> PlainNote {
    PlainNote::new(text.to_owned())
}

fn current(text: &str) -> NoteLocator {
    NoteLocator::Current(id(text))
}

fn pinned(i: &str, r: &str) -> NoteLocator {
    NoteLocator::Specific(id(i), rev(r))
}

/// p -> a -> b, each appended to the one before.
fn chain() -> InMemoryStore<PlainNote> {
    let mut store = InMemoryStore::new();
    store
        .new_note_with(id("p"), rev("p1"), 10, "P".into(), plain("p"), none())
        .unwrap();
    store
        .append_note_with(&id("p"), id("a"), rev("a1"), 20, "A".into(), plain("a"), none())
        .unwrap();
    store
        .append_note_with(&id("a"), id("b"), rev("b1"), 30, "B".into(), plain("b"), none())
        .unwrap();
    store
}

#[test]
fn deleting_the_middle_of_a_sequence_relinks_the_successor() {
    let mut store = chain();
    store.delete_note_with(&current("a"), rev("b2"), 40).unwrap();

    let b = store.get_note(&current("b")).unwrap();
    assert_eq!(b.prev, Some(id("p")));
    assert_eq!(b.parent, None);
    assert_eq!(b.revision, rev("b2"));
    assert_eq!(b.title, "B");
    assert_eq!(b.note_inner, plain("b"));
    assert_eq!(b.created_at, 30);
    assert_eq!(b.modified_at, 40);

    let p = store.get_note(&current("p")).unwrap();
    assert_eq!(p.next, Some(id("b")));

    assert!(matches!(
        store.get_note(&current("a")),
        Err(NoteStoreError::NoteDeleted(ref i)) if *i == id("a")
    ));
    let old = store.get_note(&pinned("a", "a1")).unwrap();
    assert_eq!(old.title, "A");
    assert_eq!(old.prev, Some(id("p")));
    assert_eq!(store.get_revisions(&current("a")).unwrap().len(), 1);
    assert_eq!(store.get_revisions(&current("b")).unwrap().len(), 2);
    let first = store.get_note(&pinned("b", "b1")).unwrap();
    assert_eq!(first.prev, Some(id("a")));
}

#[test]
fn deleting_a_branch_child_hands_its_parent_to_the_successor() {
    let mut store: InMemoryStore<PlainNote> = InMemoryStore::new();
    store
        .new_note_with(id("root"), rev("r1"), 1, "R".into(), plain("r"), none())
        .unwrap();
    store
        .add_branch_with(&id("root"), id("a"), rev("a1"), 2, "A".into(), plain("a"), none())
        .unwrap();
    store
        .append_note_with(&id("a"), id("b"), rev("b1"), 3, "B".into(), plain("b"), none())
        .unwrap();
    store.delete_note_with(&pinned("a", "a1"), rev("b2"), 4).unwrap();
    let b = store.get_note(&current("b")).unwrap();
    assert_eq!(b.parent, Some(id("root")));
    assert_eq!(b.prev, None);
    let root = store.get_note(&current("root")).unwrap();
    assert_eq!(root.branches, vec![id("b")]);
}

#[test]
fn deleting_the_end_of_a_sequence_changes_no_other_note() {
    let mut store = chain();
    store.delete_note_with(&current("b"), rev("unused"), 40).unwrap();
    let a = store.get_note(&current("a")).unwrap();
    assert_eq!(a.next, None);
    assert_eq!(a.revision, rev("a1"));
    assert_eq!(store.get_revisions(&current("a")).unwrap().len(), 1);
    store
        .append_note_with(&id("a"), id("c"), rev("c1"), 50, "C".into(), plain("c"), none())
        .unwrap();
    assert_eq!(store.get_note(&current("a")).unwrap().next, Some(id("c")));
}

#[test]
fn cascade_fails_where_the_revision_is_taken() {
    let mut store = chain();
    let refused = store.delete_note_with(&current("a"), rev("b1"), 40);
    assert!(matches!(
        refused,
        Err(NoteStoreError::RevisionConflict(ref i, ref r)) if *i == id("b") && *r == rev("b1")
    ));
    assert_eq!(store.get_current_revision(&current("a")).unwrap(), Some(rev("a1")));
    assert_eq!(store.get_note(&current("b")).unwrap().prev, Some(id("a")));
}

#[test]
fn delete_old_revision_is_refused() {
    let mut store = chain();
    store
        .update_note_with(&current("b"), rev("b2"), 40, Some("B2".into()), None, none())
        .unwrap();
    let refused = store.delete_note_with(&pinned("b", "b1"), rev("x"), 50);
    assert!(matches!(
        refused,
        Err(NoteStoreError::DeleteOldRevision(ref i, ref r)) if *i == id("b") && *r == rev("b1")
    ));
    store.delete_note_with(&pinned("b", "b2"), rev("x"), 50).unwrap();
    let again = store.delete_note_with(&pinned("b", "b2"), rev("x"), 60);
    assert!(matches!(again, Err(NoteStoreError::DeleteOldRevision(_, _))));
    let again = store.delete_note_with(&current("b"), rev("x"), 60);
    assert!(matches!(again, Err(NoteStoreError::NoteDeleted(ref i)) if *i == id("b")));
}

#[test]
fn errors_of_resolution() {
    let mut store = chain();
    assert!(matches!(
        store.get_note(&current("zz")),
        Err(NoteStoreError::NoteNotExist(ref i)) if *i == id("zz")
    ));
    assert!(matches!(
        store.get_note(&pinned("a", "zz")),
        Err(NoteStoreError::RevisionNotExist(ref i, ref r)) if *i == id("a") && *r == rev("zz")
    ));
    assert!(matches!(
        store.get_current_revision(&current("zz")),
        Err(NoteStoreError::NoteNotExist(_))
    ));
    assert!(matches!(
        store.get_revisions(&current("zz")),
        Err(NoteStoreError::NoteNotExist(_))
    ));
    assert!(matches!(
        store.is_deleted(&current("zz")),
        Err(NoteStoreError::NoteNotExist(_))
    ));
    assert!(matches!(
        store.is_current(&pinned("zz", "r")),
        Err(NoteStoreError::NoteNotExist(_))
    ));
    assert!(matches!(
        store.update_note_with(&current("zz"), rev("r"), 1, None, None, none()),
        Err(NoteStoreError::NoteNotExist(_))
    ));
    assert!(matches!(
        store.delete_note_with(&pinned("a", "zz"), rev("r"), 1),
        Err(NoteStoreError::RevisionNotExist(_, _))
    ));
    assert!(matches!(
        store.append_note_with(&id("zz"), id("n"), rev("n1"), 1, "".into(), plain(""), none()),
        Err(NoteStoreError::NoteNotExist(ref i)) if *i == id("zz")
    ));
    assert!(matches!(
        store.add_branch_with(&id("zz"), id("n"), rev("n1"), 1, "".into(), plain(""), none()),
        Err(NoteStoreError::NoteNotExist(ref i)) if *i == id("zz")
    ));
}

#[test]
fn identity_and_revision_conflicts() {
    let mut store = chain();
    assert!(matches!(
        store.new_note_with(id("a"), rev("n1"), 1, "".into(), plain(""), none()),
        Err(NoteStoreError::NoteIDConflict(ref i)) if *i == id("a")
    ));
    assert!(matches!(
        store.add_branch_with(&id("p"), id("b"), rev("n1"), 1, "".into(), plain(""), none()),
        Err(NoteStoreError::NoteIDConflict(ref i)) if *i == id("b")
    ));
    assert!(matches!(
        store.append_note_with(&id("b"), id("p"), rev("n1"), 1, "".into(), plain(""), none()),
        Err(NoteStoreError::NoteIDConflict(ref i)) if *i == id("p")
    ));
    assert!(matches!(
        store.update_note_with(&current("a"), rev("a1"), 1, None, None, none()),
        Err(NoteStoreError::RevisionConflict(ref i, ref r)) if *i == id("a") && *r == rev("a1")
    ));
    assert_eq!(store.get_revisions(&current("a")).unwrap().len(), 1);
}

#[test]
fn update_old_revision_is_refused() {
    let mut store = chain();
    store
        .update_note_with(&pinned("a", "a1"), rev("a2"), 40, Some("A2".into()), None, none())
        .unwrap();
    let refused = store.update_note_with(&pinned("a", "a1"), rev("a3"), 50, None, None, none());
    assert!(matches!(
        refused,
        Err(NoteStoreError::UpdateOldRevision(ref i, ref r)) if *i == id("a") && *r == rev("a1")
    ));
    let old = store.get_note(&pinned("a", "a1")).unwrap();
    assert_eq!(old.title, "A");
    assert_eq!(old.modified_at, 20);
    let new = store.get_note(&current("a")).unwrap();
    assert_eq!(new.title, "A2");
    assert_eq!(new.note_inner, plain("a"));
    assert_eq!(new.prev, Some(id("p")));
    assert_eq!(new.created_at, 20);
    assert_eq!(new.modified_at, 40);
}

#[test]
fn a_deleted_note_comes_back_through_its_last_revision() {
    let mut store = chain();
    store.delete_note_with(&current("b"), rev("x"), 40).unwrap();
    assert_eq!(store.is_deleted(&current("b")).unwrap(), true);
    assert_eq!(store.is_current(&pinned("b", "b1")).unwrap(), false);
    assert!(matches!(
        store.update_note_with(&current("b"), rev("b2"), 50, None, None, none()),
        Err(NoteStoreError::NoteDeleted(ref i)) if *i == id("b")
    ));
    let back = store
        .update_note_with(&pinned("b", "b1"), rev("b2"), 50, None, Some(plain("again")), none())
        .unwrap();
    assert_eq!(back.get_revision(), Some(&rev("b2")));
    assert_eq!(store.is_deleted(&current("b")).unwrap(), false);
    assert_eq!(store.is_current(&pinned("b", "b2")).unwrap(), true);
    assert_eq!(store.is_current(&current("b")).unwrap(), true);
    let b = store.get_note(&current("b")).unwrap();
    assert_eq!(b.prev, Some(id("a")));
    assert_eq!(b.note_inner, plain("again"));
    assert_eq!(store.get_note(&current("a")).unwrap().next, Some(id("b")));
}

#[test]
fn a_deleted_note_does_not_come_back_into_a_taken_place() {
    let mut store = chain();
    // p -> a -> b becomes p -> b; a's last revision still says that it follows p.
    store.delete_note_with(&current("a"), rev("b2"), 40).unwrap();
    let refused = store.update_note_with(&pinned("a", "a1"), rev("a2"), 50, None, None, none());
    assert!(matches!(
        refused,
        Err(NoteStoreError::ExistingNext(ref i, ref n)) if *i == id("p") && *n == id("b")
    ));
    assert_eq!(store.is_deleted(&current("a")).unwrap(), true);
}

#[test]
fn no_note_has_both_a_parent_and_a_predecessor() {
    let mut store = chain();
    store
        .add_branch_with(&id("a"), id("c"), rev("c1"), 40, "C".into(), plain("c"), none())
        .unwrap();
    store
        .append_note_with(&id("c"), id("d"), rev("d1"), 50, "D".into(), plain("d"), none())
        .unwrap();
    store.delete_note_with(&current("c"), rev("d2"), 60).unwrap();
    for name in ["p", "a", "b", "c", "d"] {
        for note in store.get_revisions(&current(name)).unwrap() {
            assert!(!(note.parent.is_some() && note.prev.is_some()));
        }
    }
    let d = store.get_note(&current("d")).unwrap();
    assert_eq!(d.parent, Some(id("a")));
    assert_eq!(d.prev, None);
}

#[test]
fn unsupported_operations_say_so() {
    let mut store = chain();
    let split = store.split_note(&current("a"), |n: PlainNote| (n.clone(), n));
    assert!(matches!(split, Err(NoteStoreError::Unsupported)));
    let merged = store.merge_note(&current("a"), &current("b"), |a: PlainNote, _b: PlainNote| a);
    assert!(matches!(merged, Err(NoteStoreError::Unsupported)));
    assert_eq!(store.get_revisions(&current("a")).unwrap().len(), 1);
}

#[test]
fn successive_creates_give_distinct_identities() {
    let mut store: InMemoryStore<PlainNote> = InMemoryStore::default();
    let mut seen: Vec<NoteID> = Vec::new();
    for n in 0..20 {
        let loc = store
            .new_note(format!("note {}", n), plain("text"), none())
            .unwrap();
        assert!(!seen.contains(loc.get_id()));
        seen.push(loc.get_id().clone());
    }
}

#[test]
fn drawn_identifiers_are_hyphenated_uuids_and_times_are_of_the_clock() {
    let mut store: InMemoryStore<PlainNote> = InMemoryStore::new();
    let loc = store.new_note("t".into(), plain("x"), none()).unwrap();
    for text in [loc.get_id().as_str(), loc.get_revision().unwrap().as_str()] {
        assert_eq!(text.len(), 36);
        assert_eq!(text.matches('-').count(), 4);
        assert_eq!(text.chars().nth(14), Some('4'));
        assert_eq!(text.to_lowercase(), text);
    }
    assert_ne!(loc.get_id().as_str(), loc.get_revision().unwrap().as_str());
    let note = store.get_note(&loc).unwrap();
    // after the year 2020, in nanoseconds
    assert!(note.created_at > 1_577_836_800_000_000_000);
    assert_eq!(note.created_at, note.modified_at);
    let next = store.update_note(&loc, None, None, none()).unwrap();
    let newer = store.get_note(&next).unwrap();
    assert!(newer.modified_at >= note.modified_at);
    assert_eq!(newer.created_at, note.created_at);
}
