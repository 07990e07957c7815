use notegraf::note::{NoteID, NoteLocator, Revision};
use notegraf::notemetadata::{NoteMetadata, NoteMetadataEditable};
use notegraf::notestore::in_memory::InMemoryStore;
use notegraf::notetype::PlainNote;
use notegraf::search::{chars_of, contains_chars, lowered, matches_lowered, matches_query};

fn id(text: &str) -> NoteID {
    NoteID::new(text.to_owned())
}

fn rev(text: &str) -> Revision {
    Revision::new(text.to_owned())
}

fn none() -> NoteMetadataEditable {
    NoteMetadataEditable::unchanged()
}

fn tagged(tags: &[&str]) -> NoteMetadataEditable {
    NoteMetadataEditable {
        tags: Some(tags.iter().map(|t| t.to_string()).collect()),
        custom_metadata: None,
    }
}

fn plain(text: &str) -> PlainNote {
    PlainNote::new(text.to_owned())
}

#[test]
fn recent_notes() {
    let mut store: InMemoryStore<PlainNote> = InMemoryStore::new();
    let loc1 = store
        .new_note_with(id("n1"), rev("r1"), 100, "title".into(), plain("## body text"), none())
        .unwrap();
    let loc2 = store
        .new_note_with(id("n2"), rev("r2"), 200, "title2".into(), plain("## body text"), none())
        .unwrap();
    let found = store.search("");
    assert_eq!(found.len(), 2);
    assert_eq!(&found[1].revision, loc1.get_revision().unwrap());
    // recent note comes first
    assert_eq!(&found[0].revision, loc2.get_revision().unwrap());
}

#[test]
fn search_notes() {
    let mut store: InMemoryStore<PlainNote> = InMemoryStore::new();
    let loc1 = store.new_note("foo".into(), plain("Fizz"), none()).unwrap();
    let loc2 = store.new_note("bar".into(), plain("buzz"), none()).unwrap();

    let found = store.search("fizz");
    assert_eq!(found.len(), 1);
    assert_eq!(&found[0].revision, loc1.get_revision().unwrap());

    let found = store.search("Buzz");
    assert_eq!(found.len(), 1);
    assert_eq!(&found[0].revision, loc2.get_revision().unwrap());
}

#[test]
fn search_reads_titles_and_skips_deleted_and_old_revisions() {
    let mut store: InMemoryStore<PlainNote> = InMemoryStore::new();
    store
        .new_note_with(id("a"), rev("a1"), 1, "Alpha".into(), plain("one"), none())
        .unwrap();
    store
        .new_note_with(id("b"), rev("b1"), 2, "Beta".into(), plain("ALPHA inside"), none())
        .unwrap();
    store
        .new_note_with(id("c"), rev("c1"), 3, "Gamma".into(), plain("three"), none())
        .unwrap();
    let found = store.search("alpha");
    assert_eq!(found.len(), 2);
    assert_eq!(found[0].id, id("b"));
    assert_eq!(found[1].id, id("a"));

    store
        .update_note_with(
            &NoteLocator::Current(id("a")),
            rev("a2"),
            9,
            Some("Omega".into()),
            None,
            none(),
        )
        .unwrap();
    let found = store.search("ALPHA");
    assert_eq!(found.len(), 1);
    assert_eq!(found[0].id, id("b"));
    let found = store.search("omega");
    assert_eq!(found.len(), 1);
    assert_eq!(found[0].revision, rev("a2"));

    store
        .delete_note_with(&NoteLocator::Current(id("b")), rev("x"), 10)
        .unwrap();
    assert!(store.search("alpha").is_empty());
    let all = store.search("");
    assert_eq!(all.len(), 2);
    assert_eq!(all[0].id, id("a"));
    assert_eq!(all[1].id, id("c"));
    assert!(store.search("no such text").is_empty());
}

#[test]
fn search_orders_by_modification_time() {
    let mut store: InMemoryStore<PlainNote> = InMemoryStore::new();
    for (name, at) in [("a", 5u128), ("b", 1), ("c", 9), ("d", 3), ("e", 7)] {
        store
            .new_note_with(id(name), rev("r"), at, "t".into(), plain("x"), none())
            .unwrap();
    }
    let order: Vec<u128> = store.search("x").iter().map(|n| n.modified_at).collect();
    assert_eq!(order, vec![9, 7, 5, 3, 1]);
}

#[test]
fn tags_of_current_notes() {
    let mut store: InMemoryStore<PlainNote> = InMemoryStore::new();
    assert!(store.tags().is_empty());
    store
        .new_note_with(id("a"), rev("a1"), 1, "A".into(), plain("a"), tagged(&["x", "y", "x"]))
        .unwrap();
    store
        .new_note_with(id("b"), rev("b1"), 2, "B".into(), plain("b"), tagged(&["y", "z"]))
        .unwrap();
    store
        .new_note_with(id("c"), rev("c1"), 3, "C".into(), plain("c"), none())
        .unwrap();
    let mut tags = store.tags();
    tags.sort();
    assert_eq!(tags, vec!["x".to_string(), "y".to_string(), "z".to_string()]);

    store
        .update_note_with(&NoteLocator::Current(id("a")), rev("a2"), 4, None, None, tagged(&["w"]))
        .unwrap();
    let mut tags = store.tags();
    tags.sort();
    assert_eq!(tags, vec!["w".to_string(), "y".to_string(), "z".to_string()]);

    store
        .delete_note_with(&NoteLocator::Current(id("b")), rev("x"), 5)
        .unwrap();
    assert_eq!(store.tags(), vec!["w".to_string()]);
    let old = store
        .get_note(&NoteLocator::Specific(id("a"), rev("a1")))
        .unwrap();
    assert_eq!(old.metadata.get_tags(), &vec!["x".to_string(), "y".to_string()]);
}

#[test]
fn metadata_patches() {
    let empty = NoteMetadata::default();
    assert!(empty.get_tags().is_empty());
    assert_eq!(empty.get_custom_metadata(), "");

    let first = NoteMetadata::from_editable(NoteMetadataEditable {
        tags: Some(vec!["a".into(), "b".into(), "a".into()]),
        custom_metadata: Some("{\"k\":1}".into()),
    });
    assert_eq!(first.get_tags(), &vec!["a".to_string(), "b".to_string()]);
    assert_eq!(first.get_custom_metadata(), "{\"k\":1}");

    let same = first.apply_editable(NoteMetadataEditable::unchanged());
    assert_eq!(same.get_tags(), first.get_tags());
    assert_eq!(same.get_custom_metadata(), first.get_custom_metadata());

    let retagged = first.apply_editable(tagged(&["c"]));
    assert_eq!(retagged.get_tags(), &vec!["c".to_string()]);
    assert_eq!(retagged.get_custom_metadata(), "{\"k\":1}");

    let recustomed = first.apply_editable(NoteMetadataEditable {
        tags: None,
        custom_metadata: Some("null".into()),
    });
    assert_eq!(recustomed.get_tags(), &vec!["a".to_string(), "b".to_string()]);
    assert_eq!(recustomed.get_custom_metadata(), "null");
    assert_eq!(first.clone().get_tags(), first.get_tags());
}

#[test]
fn matching_without_regard_to_case() {
    assert!(matches_query("fizz", "foo", "Fizz"));
    assert!(matches_query("FOO", "a foo b", ""));
    assert!(matches_query("", "", ""));
    assert!(matches_query("", "title", "text"));
    assert!(!matches_query("fizz", "bar", "buzz"));
    assert!(!matches_query("longer than both", "short", "tiny"));
    assert!(matches_query("ÄB", "xäby", ""));
    assert_eq!(lowered("MiXed Ä"), vec!['m', 'i', 'x', 'e', 'd', ' ', 'ä']);
    assert!(matches_lowered(&chars_of("zz"), "", "fiZZ"));
    assert!(!matches_lowered(&chars_of("ZZ"), "", "fiZZ"));
}

#[test]
fn substring_search() {
    let hay = chars_of("hello world");
    assert_eq!(hay.len(), 11);
    assert!(contains_chars(&hay, &chars_of("")));
    assert!(contains_chars(&hay, &chars_of("hello")));
    assert!(contains_chars(&hay, &chars_of("world")));
    assert!(contains_chars(&hay, &chars_of("o w")));
    assert!(contains_chars(&hay, &chars_of("hello world")));
    assert!(!contains_chars(&hay, &chars_of("hello world!")));
    assert!(!contains_chars(&hay, &chars_of("worlds")));
    assert!(!contains_chars(&hay, &chars_of("lol")));
    assert!(contains_chars(&chars_of(""), &chars_of("")));
    assert!(!contains_chars(&chars_of(""), &chars_of("a")));
    assert!(contains_chars(&chars_of("aab"), &chars_of("ab")));
}
