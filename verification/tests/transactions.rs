use notegraf::errors::NoteStoreError;
use notegraf::note::{NoteID, NoteLocator, Revision};
use notegraf::notestore::rules::{check_append, check_delete, check_update, inherited_links};
use notegraf::notestore::transaction::{Action, Event, Intent, OperationKind, Phase, Transaction};

fn id(text: &str) -> NoteID {
    NoteID::new(text.to_owned())
}

fn rev(text: &str) -> Revision {
    Revision::new(text.to_owned())
}

#[test]
fn reads_open_read_only_and_writes_open_read_write() {
    for kind in [
        OperationKind::GetNote,
        OperationKind::GetRevisions,
        OperationKind::GetCurrentRevision,
        OperationKind::Search,
        OperationKind::Tags,
    ] {
        let tx = Transaction::begin(kind);
        assert_eq!(tx.phase(), Phase::Open(Intent::ReadOnly));
        assert_eq!(tx.intent(), Some(Intent::ReadOnly));
    }
    for kind in [
        OperationKind::NewNote,
        OperationKind::UpdateNote,
        OperationKind::DeleteNote,
        OperationKind::AppendNote,
        OperationKind::AddBranch,
    ] {
        let tx = Transaction::begin(kind);
        assert_eq!(tx.phase(), Phase::Open(Intent::ReadWrite));
    }
}

#[test]
fn a_clean_operation_commits_once() {
    let mut tx = Transaction::begin(OperationKind::DeleteNote);
    assert_eq!(tx.on(Event::Read), Action::Proceed);
    assert_eq!(tx.on(Event::Read), Action::Proceed);
    assert_eq!(tx.on(Event::Write), Action::Proceed);
    assert_eq!(tx.on(Event::Write), Action::Proceed);
    assert_eq!(tx.on(Event::Done), Action::Commit);
    assert_eq!(tx.phase(), Phase::Committed);
    assert_eq!(tx.intent(), None);
    assert_eq!(tx.on(Event::Done), Action::Nothing);
    assert_eq!(tx.on(Event::Write), Action::Nothing);
    assert_eq!(tx.on(Event::Failed), Action::Nothing);
    assert_eq!(tx.phase(), Phase::Committed);
}

#[test]
fn a_refusal_rolls_back() {
    let mut tx = Transaction::begin(OperationKind::AppendNote);
    assert_eq!(tx.on(Event::Read), Action::Proceed);
    assert_eq!(tx.on(Event::Refused), Action::Rollback);
    assert_eq!(tx.phase(), Phase::RolledBack);
    assert_eq!(tx.on(Event::Write), Action::Nothing);
    assert_eq!(tx.on(Event::Done), Action::Nothing);
    assert_eq!(tx.phase(), Phase::RolledBack);
}

#[test]
fn an_engine_error_rolls_back() {
    let mut tx = Transaction::begin(OperationKind::UpdateNote);
    assert_eq!(tx.on(Event::Write), Action::Proceed);
    assert_eq!(tx.on(Event::Failed), Action::Rollback);
    assert_eq!(tx.phase(), Phase::RolledBack);
}

#[test]
fn a_read_only_transaction_never_writes() {
    let mut tx = Transaction::begin(OperationKind::Search);
    assert_eq!(tx.on(Event::Read), Action::Proceed);
    assert_eq!(tx.on(Event::Write), Action::Rollback);
    assert_eq!(tx.phase(), Phase::RolledBack);
}

#[test]
fn finishing_follows_the_outcome() {
    let mut tx = Transaction::begin(OperationKind::GetNote);
    let ok: Result<u8, NoteStoreError> = Ok(1);
    assert_eq!(tx.finish(&ok), Action::Commit);
    let mut tx = Transaction::begin(OperationKind::NewNote);
    let err: Result<u8, NoteStoreError> = Err(NoteStoreError::NoteIDConflict(id("a")));
    assert_eq!(tx.finish(&err), Action::Rollback);
    assert_eq!(tx.finish(&ok), Action::Nothing);
}

#[test]
fn the_update_rule() {
    let pinned = NoteLocator::Specific(id("a"), rev("r1"));
    let current = NoteLocator::Current(id("a"));
    assert!(check_update(&pinned, true).is_ok());
    assert!(check_update(&current, true).is_ok());
    assert!(check_update(&current, false).is_ok());
    assert!(matches!(
        check_update(&pinned, false),
        Err(NoteStoreError::UpdateOldRevision(ref i, ref r)) if *i == id("a") && *r == rev("r1")
    ));
}

#[test]
fn the_delete_rule() {
    let pinned = NoteLocator::Specific(id("a"), rev("r1"));
    let current = NoteLocator::Current(id("a"));
    let nobody: Vec<NoteID> = vec![];
    let somebody = vec![id("b")];
    assert!(check_delete(&pinned, true, &nobody, &nobody).is_ok());
    assert!(check_delete(&current, true, &nobody, &nobody).is_ok());
    assert!(matches!(
        check_delete(&pinned, false, &somebody, &somebody),
        Err(NoteStoreError::DeleteOldRevision(ref i, ref r)) if *i == id("a") && *r == rev("r1")
    ));
    assert!(matches!(
        check_delete(&current, false, &nobody, &nobody),
        Err(NoteStoreError::NoteDeleted(ref i)) if *i == id("a")
    ));
    assert!(matches!(
        check_delete(&current, true, &somebody, &nobody),
        Err(NoteStoreError::HasBranches(ref i)) if *i == id("a")
    ));
    assert!(matches!(
        check_delete(&pinned, true, &nobody, &somebody),
        Err(NoteStoreError::HasReferences(ref i)) if *i == id("a")
    ));
    // branches are looked at first
    assert!(matches!(
        check_delete(&pinned, true, &somebody, &somebody),
        Err(NoteStoreError::HasBranches(_))
    ));
}

#[test]
fn the_append_rule_and_the_inherited_links() {
    assert!(check_append(&id("a"), &None).is_ok());
    assert!(matches!(
        check_append(&id("a"), &Some(id("b"))),
        Err(NoteStoreError::ExistingNext(ref i, ref n)) if *i == id("a") && *n == id("b")
    ));
    assert_eq!(
        inherited_links(&Some(id("p")), &None),
        (Some(id("p")), None)
    );
    assert_eq!(
        inherited_links(&None, &Some(id("q"))),
        (None, Some(id("q")))
    );
    assert_eq!(inherited_links(&None, &None), (None, None));
}
