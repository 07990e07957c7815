//! How a store that keeps its notes in a transactional engine places the
//! boundaries of its transactions: one transaction for each operation, opened
//! with the intent that the operation needs, committed only where every step
//! and every rule passed, rolled back otherwise.
//!
//! The engine itself is not here. Whoever talks to it reports what happened
//! as an [`Event`], and does what the [`Action`] in reply says.
use vstd::prelude::*;

verus! {

/// The operations of a store.
#[derive(Clone, Copy, Debug, PartialEq, Eq, Structural)]
pub enum OperationKind {
    NewNote,
    GetNote,
    UpdateNote,
    DeleteNote,
    GetRevisions,
    GetCurrentRevision,
    AppendNote,
    AddBranch,
    Search,
    Tags,
}

/// What a transaction declares when it opens: that it only reads, or that it
/// also writes.
#[derive(Clone, Copy, Debug, PartialEq, Eq, Structural)]
pub enum Intent {
    ReadOnly,
    ReadWrite,
}

/// Where a transaction stands.
#[derive(Clone, Copy, Debug, PartialEq, Eq, Structural)]
pub enum Phase {
    /// Open with this intent; nothing has failed.
    Open(Intent),
    /// Closed by a commit.
    Committed,
    /// Closed by a rollback.
    RolledBack,
}

/// What happened in the course of an operation.
#[derive(Clone, Copy, Debug, PartialEq, Eq, Structural)]
pub enum Event {
    /// The next step reads from the engine.
    Read,
    /// The next step writes to the engine.
    Write,
    /// A rule of the store refused the operation.
    Refused,
    /// The engine reported an error.
    Failed,
    /// Every step of the operation is done.
    Done,
}

/// What to do in reply to an event.
#[derive(Clone, Copy, Debug, PartialEq, Eq, Structural)]
pub enum Action {
    /// Go on with the step.
    Proceed,
    /// Commit the transaction and return the result.
    Commit,
    /// Roll the transaction back and return the error.
    Rollback,
    /// The transaction is closed: do nothing.
    Nothing,
}

impl OperationKind {
    /// Whether the operation changes the store.
    pub open spec fn mutates(self) -> bool {
        match self {
            OperationKind::NewNote => true,
            OperationKind::UpdateNote => true,
            OperationKind::DeleteNote => true,
            OperationKind::AppendNote => true,
            OperationKind::AddBranch => true,
            _ => false,
        }
    }
}

/// The intent that an operation declares: to write exactly if it changes the
/// store.
pub open spec fn intent_for(kind: OperationKind) -> Intent {
    if kind.mutates() {
        Intent::ReadWrite
    } else {
        Intent::ReadOnly
    }
}

/// Whether an event closes an open transaction without a commit: a refusal,
/// an error of the engine, or a write where the intent was to read only.
pub open spec fn aborts(intent: Intent, event: Event) -> bool {
    event == Event::Refused || event == Event::Failed || (event == Event::Write && intent
        == Intent::ReadOnly)
}

/// Where a transaction stands after an event.
pub open spec fn phase_after(phase: Phase, event: Event) -> Phase {
    match phase {
        Phase::Open(intent) => if aborts(intent, event) {
            Phase::RolledBack
        } else if event == Event::Done {
            Phase::Committed
        } else {
            phase
        },
        _ => phase,
    }
}

/// What a transaction in `phase` replies to an event.
pub open spec fn reply_to(phase: Phase, event: Event) -> Action {
    match phase {
        Phase::Open(intent) => if aborts(intent, event) {
            Action::Rollback
        } else if event == Event::Done {
            Action::Commit
        } else {
            Action::Proceed
        },
        _ => Action::Nothing,
    }
}

/// Where a transaction stands after a sequence of events.
pub open spec fn phase_after_all(phase: Phase, events: Seq<Event>) -> Phase
    decreases events.len(),
{
    if events.len() == 0 {
        phase
    } else {
        phase_after(phase_after_all(phase, events.drop_last()), events.last())
    }
}

/// The reply to the event at place `i` of a sequence of events.
pub open spec fn reply_at(phase: Phase, events: Seq<Event>, i: int) -> Action {
    reply_to(phase_after_all(phase, events.take(i)), events[i])
}

/// The transaction of one operation.
pub struct Transaction {
    phase: Phase,
}

impl View for Transaction {
    type V = Phase;

    closed spec fn view(&self) -> Phase {
        self.phase
    }
}

impl Transaction {
    /// The transaction for an operation of this kind, open with the intent
    /// that the operation needs.
    pub fn begin(kind: OperationKind) -> (tx: Self)
        ensures
            tx@ == Phase::Open(intent_for(kind)),
    {
        let intent = match kind {
            OperationKind::NewNote => Intent::ReadWrite,
            OperationKind::UpdateNote => Intent::ReadWrite,
            OperationKind::DeleteNote => Intent::ReadWrite,
            OperationKind::AppendNote => Intent::ReadWrite,
            OperationKind::AddBranch => Intent::ReadWrite,
            OperationKind::GetNote => Intent::ReadOnly,
            OperationKind::GetRevisions => Intent::ReadOnly,
            OperationKind::GetCurrentRevision => Intent::ReadOnly,
            OperationKind::Search => Intent::ReadOnly,
            OperationKind::Tags => Intent::ReadOnly,
        };
        Transaction { phase: Phase::Open(intent) }
    }

    /// Where the transaction stands.
    pub fn phase(&self) -> (phase: Phase)
        ensures
            phase == self@,
    {
        self.phase
    }

    /// The intent with which the transaction is open; `None` once it is
    /// closed.
    pub fn intent(&self) -> (intent: Option<Intent>)
        ensures
            intent == (match self@ {
                Phase::Open(i) => Some(i),
                _ => None,
            }),
    {
        match self.phase {
            Phase::Open(i) => Some(i),
            _ => None,
        }
    }

    /// Takes note of an event and says what to do.
    pub fn on(&mut self, event: Event) -> (action: Action)
        ensures
            action == reply_to(old(self)@, event),
            final(self)@ == phase_after(old(self)@, event),
    {
        match self.phase {
            Phase::Open(intent) => {
                let abort = match event {
                    Event::Refused => true,
                    Event::Failed => true,
                    Event::Write => match intent {
                        Intent::ReadOnly => true,
                        Intent::ReadWrite => false,
                    },
                    _ => false,
                };
                if abort {
                    self.phase = Phase::RolledBack;
                    Action::Rollback
                } else {
                    match event {
                        Event::Done => {
                            self.phase = Phase::Committed;
                            Action::Commit
                        },
                        _ => Action::Proceed,
                    }
                }
            },
            _ => Action::Nothing,
        }
    }

    /// What closes the transaction of an operation that ended with
    /// `outcome`: a commit where it succeeded, a rollback where it failed.
    pub fn finish<R, E>(&mut self, outcome: &Result<R, E>) -> (action: Action)
        ensures
            action == reply_to(old(self)@, closing_event(*outcome)),
            final(self)@ == phase_after(old(self)@, closing_event(*outcome)),
    {
        match outcome {
            Ok(_) => self.on(Event::Done),
            Err(_) => self.on(Event::Refused),
        }
    }
}

/// The event with which an operation that ended with `outcome` closes its
/// transaction.
pub open spec fn closing_event<R, E>(outcome: Result<R, E>) -> Event {
    match outcome {
        Ok(_) => Event::Done,
        Err(_) => Event::Refused,
    }
}

/// A closed transaction stays as it is, whatever follows.
pub proof fn law_closed_stays(phase: Phase, events: Seq<Event>)
    requires
        !(phase is Open),
    ensures
        phase_after_all(phase, events) == phase,
    decreases events.len(),
{
    if events.len() > 0 {
        law_closed_stays(phase, events.drop_last());
    }
}

/// An open transaction keeps its intent for as long as it is open.
pub proof fn law_intent_kept(intent: Intent, events: Seq<Event>)
    ensures
        phase_after_all(Phase::Open(intent), events) is Open ==> phase_after_all(
            Phase::Open(intent),
            events,
        ) == Phase::Open(intent),
    decreases events.len(),
{
    if events.len() > 0 {
        law_intent_kept(intent, events.drop_last());
    }
}

/// After a prefix of the events the transaction stands where it stood
/// after that prefix, or it is closed for good.
pub proof fn lemma_prefix(phase: Phase, events: Seq<Event>, n: int)
    requires
        0 <= n <= events.len(),
    ensures
        !(phase_after_all(phase, events.take(n)) is Open) ==> phase_after_all(phase, events)
            == phase_after_all(phase, events.take(n)),
    decreases events.len(),
{
    if n == events.len() {
        assert(events.take(n) =~= events);
    } else {
        lemma_prefix(phase, events.drop_last(), n);
        assert(events.drop_last().take(n) =~= events.take(n));
    }
}

/// Whether no event of the sequence aborts a transaction of this intent or
/// ends it.
pub open spec fn quiet(intent: Intent, events: Seq<Event>) -> bool {
    forall|k: int|
        0 <= k < events.len() ==> !aborts(intent, #[trigger] events[k]) && events[k]
            != Event::Done
}

/// Whether the event at place `n` is `Done` and the events before it are
/// quiet.
pub open spec fn done_at(intent: Intent, events: Seq<Event>, n: int) -> bool {
    0 <= n < events.len() && events[n] == Event::Done && quiet(intent, events.take(n))
}

/// A transaction is still open exactly where no event so far aborted it or
/// ended it.
pub proof fn lemma_open_means_quiet(intent: Intent, events: Seq<Event>)
    ensures
        phase_after_all(Phase::Open(intent), events) is Open <==> quiet(intent, events),
    decreases events.len(),
{
    if events.len() > 0 {
        let rest = events.drop_last();
        lemma_open_means_quiet(intent, rest);
        law_intent_kept(intent, rest);
        if quiet(intent, rest) {
            if !aborts(intent, events.last()) && events.last() != Event::Done {
                assert forall|k: int| 0 <= k < events.len() implies !aborts(
                    intent,
                    #[trigger] events[k],
                ) && events[k] != Event::Done by {
                    if k < rest.len() {
                        assert(rest[k] == events[k]);
                    }
                }
            } else {
                assert(events[events.len() - 1] == events.last());
            }
        } else {
            let k = choose|k: int|
                0 <= k < rest.len() && !(!aborts(intent, #[trigger] rest[k]) && rest[k]
                    != Event::Done);
            assert(events[k] == rest[k]);
            law_closed_stays(phase_after_all(Phase::Open(intent), rest), seq![events.last()]);
        }
    }
}

/// A transaction is committed exactly where the events reached `Done` while
/// it was open, and nothing before that aborted it: no rule refused, the
/// engine reported no error, and no write was attempted under the intent to
/// read only.
pub proof fn law_commit_only_clean(intent: Intent, events: Seq<Event>)
    ensures
        phase_after_all(Phase::Open(intent), events) == Phase::Committed <==> exists|n: int|
            done_at(intent, events, n),
    decreases events.len(),
{
    let start = Phase::Open(intent);
    if events.len() > 0 {
        let rest = events.drop_last();
        law_commit_only_clean(intent, rest);
        lemma_open_means_quiet(intent, rest);
        law_intent_kept(intent, rest);
        let before = phase_after_all(start, rest);
        if phase_after_all(start, events) == Phase::Committed {
            if before == Phase::Committed {
                let n = choose|n: int| done_at(intent, rest, n);
                assert(rest.take(n) =~= events.take(n));
                assert(events[n] == rest[n]);
                assert(done_at(intent, events, n));
            } else {
                let n = events.len() - 1;
                assert(events.take(n) =~= rest);
                assert(done_at(intent, events, n));
            }
        }
        if exists|n: int| done_at(intent, events, n) {
            let n = choose|n: int| done_at(intent, events, n);
            if n < rest.len() {
                assert(rest.take(n) =~= events.take(n));
                assert(rest[n] == events[n]);
                assert(done_at(intent, rest, n));
            } else {
                assert(events.take(n) =~= rest);
            }
        }
    } else {
        assert(forall|n: int| !done_at(intent, events, n));
    }
}

/// A write goes on only in a transaction that is open with the intent to
/// write: under the intent to read only it is answered by a rollback.
pub proof fn law_no_write_when_reading(phase: Phase)
    ensures
        reply_to(phase, Event::Write) == Action::Proceed <==> phase == Phase::Open(
            Intent::ReadWrite,
        ),
{
}

/// A transaction is closed at most once: in the course of any sequence of
/// events, at most one event is answered by a commit or a rollback.
pub proof fn law_closed_once(phase: Phase, events: Seq<Event>, i: int, j: int)
    requires
        0 <= i < j < events.len(),
    ensures
        !({
            let a = reply_at(phase, events, i);
            let b = reply_at(phase, events, j);
            (a == Action::Commit || a == Action::Rollback) && (b == Action::Commit || b
                == Action::Rollback)
        }),
{
    let a = reply_at(phase, events, i);
    if a == Action::Commit || a == Action::Rollback {
        let before = phase_after_all(phase, events.take(i));
        assert(events.take(i + 1).drop_last() =~= events.take(i));
        assert(events.take(i + 1).last() == events[i]);
        let closed = phase_after_all(phase, events.take(i + 1));
        assert(closed == phase_after(before, events[i]));
        assert(!(closed is Open));
        lemma_prefix(phase, events.take(j), i + 1);
        assert(events.take(j).take(i + 1) =~= events.take(i + 1));
    }
}

} // verus!
