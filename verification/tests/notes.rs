use notegraf::fresh::{clock_reading, get_new_noteid, get_new_revision, get_now};
use notegraf::idset::{
    clone_id_option, clone_ids, clone_texts, contains_id, contains_text, distinct_ids,
    distinct_texts, option_is_id,
};
use notegraf::note::{Note, NoteID, NoteLocator, Revision};
use notegraf::notetype::{LinkedNote, PlainNote};

fn id(text: &str) -> NoteID {
    NoteID::new(text.to_owned())
}

fn rev(text: &str) -> Revision {
    Revision::new(text.to_owned())
}

#[test]
fn identities_are_their_texts() {
    let a = NoteID::new("abc".to_owned());
    assert_eq!(a.as_str(), "abc");
    assert_eq!(a.clone(), a);
    assert_ne!(a, id("abd"));
    assert_eq!(NoteID::from("abc".to_owned()), a);
    assert_eq!(NoteID::from("abc"), a);
    assert_eq!(a.into_string(), "abc");
    let r = Revision::new("r1".to_owned());
    assert_eq!(r.as_str(), "r1");
    assert_eq!(r.clone(), r);
    assert_ne!(r, rev("r2"));
    assert_eq!(Revision::from("r1".to_owned()), r);
    assert_eq!(Revision::from("r1"), r);
    assert_eq!(r.into_string(), "r1");
}

#[test]
fn locators() {
    let current = NoteLocator::Current(id("a"));
    let pinned = NoteLocator::Specific(id("a"), rev("r1"));
    assert_eq!(current.get_id(), &id("a"));
    assert_eq!(pinned.get_id(), &id("a"));
    assert_eq!(current.get_revision(), None);
    assert_eq!(pinned.get_revision(), Some(&rev("r1")));
    assert_eq!(pinned.unpack(), (&id("a"), Some(&rev("r1"))));
    assert_eq!(current.unpack(), (&id("a"), None));
    assert!(matches!(
        current.at_revision(&rev("r2")),
        NoteLocator::Specific(ref i, ref r) if *i == id("a") && *r == rev("r2")
    ));
    assert!(matches!(
        pinned.at_revision(&rev("r2")),
        NoteLocator::Specific(ref i, ref r) if *i == id("a") && *r == rev("r2")
    ));
    assert!(matches!(pinned.current(), NoteLocator::Current(ref i) if *i == id("a")));
    assert!(matches!(pinned.clone(), NoteLocator::Specific(ref i, ref r) if *i == id("a") && *r == rev("r1")));
}

#[test]
fn a_new_note_has_nothing_but_what_it_was_given() {
    let note = Note::new(
        LinkedNote::new("text".to_owned(), vec![id("x"), id("y"), id("x")]),
        id("a"),
        rev("r1"),
        Some(id("p")),
    );
    assert_eq!(note.title, "");
    assert_eq!(note.note_inner.as_str(), "text");
    assert_eq!(note.id, id("a"));
    assert_eq!(note.revision, rev("r1"));
    assert_eq!(note.parent, Some(id("p")));
    assert!(note.branches.is_empty());
    assert_eq!(note.prev, None);
    assert_eq!(note.next, None);
    assert_eq!(note.references, vec![id("x"), id("y")]);
    assert!(note.referents.is_empty());
    assert!(note.metadata.get_tags().is_empty());
    assert_eq!(note.metadata.get_custom_metadata(), "");
    assert_eq!(note.created_at, 0);
    assert_eq!(note.modified_at, 0);
    assert_eq!(note.get_references(), vec![id("x"), id("y")]);
    assert_eq!(note.get_title(), "");
    assert_eq!(note.get_note_inner().as_str(), "text");
    assert_eq!(note.get_id(), id("a"));
    assert_eq!(note.get_revision(), rev("r1"));
    assert_eq!(note.get_parent(), Some(id("p")));
    assert!(note.get_branches().is_empty());
    assert_eq!(note.get_prev(), None);
    assert_eq!(note.get_next(), None);
    assert!(note.get_referents().is_empty());
    assert!(note.get_metadata().get_tags().is_empty());
    let plain = Note::new(PlainNote::new("p".to_owned()), id("b"), rev("r"), None);
    assert!(plain.get_references().is_empty());
    assert_eq!(plain.parent, None);
}

#[test]
fn vectors_read_as_sets() {
    let ids = vec![id("a"), id("b"), id("a"), id("c"), id("b")];
    assert!(contains_id(&ids, &id("c")));
    assert!(!contains_id(&ids, &id("d")));
    assert!(!contains_id(&vec![], &id("a")));
    assert_eq!(clone_ids(&ids), ids);
    assert_eq!(distinct_ids(&ids), vec![id("a"), id("b"), id("c")]);
    assert_eq!(clone_id_option(&Some(id("a"))), Some(id("a")));
    assert_eq!(clone_id_option(&None), None);
    assert!(option_is_id(&Some(id("a")), &id("a")));
    assert!(!option_is_id(&Some(id("a")), &id("b")));
    assert!(!option_is_id(&None, &id("a")));
    let texts: Vec<String> = vec!["x".into(), "y".into(), "x".into()];
    assert!(contains_text(&texts, &"y".to_string()));
    assert!(!contains_text(&texts, &"z".to_string()));
    assert_eq!(clone_texts(&texts), texts);
    assert_eq!(distinct_texts(&texts), vec!["x".to_string(), "y".to_string()]);
}

fn has_the_form_of_a_hyphenated_uuid(text: &str) -> bool {
    text.chars().count() == 36
        && text.chars().enumerate().all(|(i, c)| {
            if i == 8 || i == 13 || i == 18 || i == 23 {
                c == '-'
            } else {
                ('0'..='9').contains(&c) || ('a'..='f').contains(&c)
            }
        })
}

#[test]
fn drawn_identities_have_the_form_of_hyphenated_uuids() {
    for _ in 0..50 {
        let id = get_new_noteid();
        let revision = get_new_revision();
        assert!(has_the_form_of_a_hyphenated_uuid(id.as_str()));
        assert!(has_the_form_of_a_hyphenated_uuid(revision.as_str()));
        assert_ne!(id.as_str(), revision.as_str());
    }
}

#[test]
fn the_time_is_what_the_clock_reads() {
    assert_eq!(clock_reading(Some(0)), 0);
    assert_eq!(clock_reading(Some(1_700_000_000_000_000_000)), 1_700_000_000_000_000_000);
    assert_eq!(clock_reading(Some(u128::MAX)), u128::MAX);
    assert_eq!(clock_reading(None), 0);
    // after the year 2020, in nanoseconds
    assert!(get_now() > 1_577_836_800_000_000_000);
}
