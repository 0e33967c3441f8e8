//! The decisions of a request handler that ingests one batch against a
//! storage engine which it reaches by requests of its own.
//!
//! The handler performs the work: it decodes the batch, opens the
//! transaction, has each event validated, writes it, emits a count for
//! it, and commits. After each piece of work it reports what came of it as
//! a [`Signal`], and [`Pipeline::step`] says what to do next as an
//! [`Action`]. The pipeline asks for the commit once, after the last event
//! has been written, and never after a failure. An [`Action::Finish`] with
//! an error tells the handler to abandon the transaction, if it has one,
//! before it answers.

use vstd::prelude::*;

use crate::error::{ingest_fault, IngestError, IngestErrorView, StoreError};
use crate::model::EventView;
use crate::store::Relations;

verus! {

/// Where the ingestion of a batch stands: the work whose signal is
/// awaited.
#[derive(Debug, Clone, Copy, PartialEq, Eq, Structural)]
pub enum Pipeline {
    /// The batch is being decoded.
    Decoding,
    /// The transaction is being opened for a batch of `total` events.
    Beginning { total: usize },
    /// The event at `index` is being validated.
    Validating { index: usize, total: usize },
    /// The event at `index` is being written.
    Persisting { index: usize, total: usize },
    /// The count for the event at `index` is being emitted.
    Counting { index: usize, total: usize },
    /// The transaction is being committed.
    Committing,
    /// The outcome has been handed out.
    Finished,
}

/// What came of a piece of work.
#[derive(Debug, PartialEq, Eq)]
pub enum Signal {
    /// The batch decodes to `count` events.
    Decoded { count: usize },
    /// The batch does not decode.
    DecodeFailed { reason: String },
    /// The transaction is open.
    Begun,
    /// The transaction could not be opened.
    BeginFailed,
    /// The validator accepted the event.
    Valid,
    /// The validator rejected the event.
    Invalid { reason: String },
    /// The event has been written.
    Persisted,
    /// The event could not be written.
    PersistFailed { fault: StoreError },
    /// The count has been emitted.
    Counted,
    /// The count could not be emitted.
    CountFailed,
    /// The transaction has been committed.
    Committed,
    /// The commit failed.
    CommitFailed,
}

/// Mathematical value of a [`Signal`].
pub enum SignalView {
    Decoded { count: usize },
    DecodeFailed { reason: Seq<char> },
    Begun,
    BeginFailed,
    Valid,
    Invalid { reason: Seq<char> },
    Persisted,
    PersistFailed { fault: StoreError },
    Counted,
    CountFailed,
    Committed,
    CommitFailed,
}

impl View for Signal {
    type V = SignalView;

    open spec fn view(&self) -> SignalView {
        match self {
            Signal::Decoded { count } => SignalView::Decoded { count: *count },
            Signal::DecodeFailed { reason } => SignalView::DecodeFailed { reason: reason@ },
            Signal::Begun => SignalView::Begun,
            Signal::BeginFailed => SignalView::BeginFailed,
            Signal::Valid => SignalView::Valid,
            Signal::Invalid { reason } => SignalView::Invalid { reason: reason@ },
            Signal::Persisted => SignalView::Persisted,
            Signal::PersistFailed { fault } => SignalView::PersistFailed { fault: *fault },
            Signal::Counted => SignalView::Counted,
            Signal::CountFailed => SignalView::CountFailed,
            Signal::Committed => SignalView::Committed,
            Signal::CommitFailed => SignalView::CommitFailed,
        }
    }
}

impl SignalView {
    /// Whether the signal reports a failure other than that of a count.
    pub open spec fn is_failure(self) -> bool {
        self is DecodeFailed || self is BeginFailed || self is Invalid || self is PersistFailed
            || self is CommitFailed
    }
}

/// The work that the handler is to do next.
#[derive(Debug, PartialEq, Eq)]
pub enum Action {
    /// Open the transaction.
    Begin,
    /// Have the event at `index` validated.
    Validate { index: usize },
    /// Write the event at `index` within the transaction.
    Persist { index: usize },
    /// Emit one count for the event at `index`.
    Count { index: usize },
    /// Commit the transaction.
    Commit,
    /// Answer with this outcome; if it is an error, abandon the
    /// transaction first.
    Finish { outcome: Result<(), IngestError> },
    /// Nothing: the outcome has been handed out before.
    Idle,
}

/// Mathematical value of an [`Action`].
pub enum ActionView {
    Begin,
    Validate { index: usize },
    Persist { index: usize },
    Count { index: usize },
    Commit,
    Finish { outcome: Result<(), IngestErrorView> },
    Idle,
}

impl View for Action {
    type V = ActionView;

    open spec fn view(&self) -> ActionView {
        match self {
            Action::Begin => ActionView::Begin,
            Action::Validate { index } => ActionView::Validate { index: *index },
            Action::Persist { index } => ActionView::Persist { index: *index },
            Action::Count { index } => ActionView::Count { index: *index },
            Action::Commit => ActionView::Commit,
            Action::Finish { outcome } => ActionView::Finish {
                outcome: match outcome {
                    Ok(_) => Ok(()),
                    Err(fault) => Err(fault@),
                },
            },
            Action::Idle => ActionView::Idle,
        }
    }
}

impl Pipeline {
    /// The end of a batch that is refused.
    pub open spec fn refuse(fault: IngestErrorView) -> (Pipeline, ActionView) {
        (Pipeline::Finished, ActionView::Finish { outcome: Err(fault) })
    }

    /// What follows the event at `index`: the next event, or the commit
    /// after the last one.
    pub open spec fn proceed(index: usize, total: usize) -> (Pipeline, ActionView) {
        if index >= total {
            Self::refuse(IngestErrorView::StorageError)
        } else if index + 1 == total {
            (Pipeline::Committing, ActionView::Commit)
        } else {
            (
                Pipeline::Validating { index: (index + 1) as usize, total },
                ActionView::Validate { index: (index + 1) as usize },
            )
        }
    }

    /// The state that follows a signal, and the action that answers it.
    ///
    /// A signal of failure ends the batch with its error:
    /// `DecodeError`, `StorageError` where the transaction does not open,
    /// `ValidationError` with the position of the event, the fault of the
    /// store, `CommitError`. The failure of a count is no failure of the
    /// batch. A signal that does not answer the work that is awaited ends
    /// the batch with `StorageError`; once the batch has ended, every
    /// signal is answered with `Idle`.
    pub open spec fn after(self, signal: SignalView) -> (Pipeline, ActionView) {
        match (self, signal) {
            (Pipeline::Finished, _) => (Pipeline::Finished, ActionView::Idle),
            (Pipeline::Decoding, SignalView::Decoded { count }) => (
                Pipeline::Beginning { total: count },
                ActionView::Begin,
            ),
            (Pipeline::Decoding, SignalView::DecodeFailed { reason }) => Self::refuse(
                IngestErrorView::DecodeError { reason },
            ),
            (Pipeline::Beginning { total }, SignalView::Begun) => if total == 0 {
                (Pipeline::Committing, ActionView::Commit)
            } else {
                (Pipeline::Validating { index: 0, total }, ActionView::Validate { index: 0 })
            },
            (Pipeline::Validating { index, total }, SignalView::Valid) => (
                Pipeline::Persisting { index, total },
                ActionView::Persist { index },
            ),
            (Pipeline::Validating { index, total }, SignalView::Invalid { reason }) => Self::refuse(
                IngestErrorView::ValidationError { index: index as nat, reason },
            ),
            (Pipeline::Persisting { index, total }, SignalView::Persisted) => (
                Pipeline::Counting { index, total },
                ActionView::Count { index },
            ),
            (Pipeline::Persisting { index, total }, SignalView::PersistFailed { fault }) => {
                Self::refuse(ingest_fault(fault))
            },
            (Pipeline::Counting { index, total }, SignalView::Counted) => Self::proceed(
                index,
                total,
            ),
            (Pipeline::Counting { index, total }, SignalView::CountFailed) => Self::proceed(
                index,
                total,
            ),
            (Pipeline::Committing, SignalView::Committed) => (
                Pipeline::Finished,
                ActionView::Finish { outcome: Ok(()) },
            ),
            (Pipeline::Committing, SignalView::CommitFailed) => Self::refuse(
                IngestErrorView::CommitError,
            ),
            _ => Self::refuse(IngestErrorView::StorageError),
        }
    }

    /// The state in which the ingestion of a batch starts: the handler is
    /// to decode the batch.
    pub fn new() -> (start: Pipeline)
        ensures
            start == Pipeline::Decoding,
    {
        Pipeline::Decoding
    }

    fn refused(fault: IngestError) -> (next: (Pipeline, Action))
        ensures
            (next.0, next.1@) == Self::refuse(fault@),
    {
        (Pipeline::Finished, Action::Finish { outcome: Err(fault) })
    }

    fn proceeded(index: usize, total: usize) -> (next: (Pipeline, Action))
        ensures
            (next.0, next.1@) == Self::proceed(index, total),
    {
        if index >= total {
            Self::refused(IngestError::StorageError)
        } else if index + 1 == total {
            (Pipeline::Committing, Action::Commit)
        } else {
            (Pipeline::Validating { index: index + 1, total }, Action::Validate { index: index + 1 })
        }
    }

    /// Takes the signal of the work that was asked for last, and returns
    /// the state that follows with the work to do next.
    pub fn step(self, signal: Signal) -> (next: (Pipeline, Action))
        ensures
            (next.0, next.1@) == self.after(signal@),
    {
        match (self, signal) {
            (Pipeline::Finished, _) => (Pipeline::Finished, Action::Idle),
            (Pipeline::Decoding, Signal::Decoded { count }) => (
                Pipeline::Beginning { total: count },
                Action::Begin,
            ),
            (Pipeline::Decoding, Signal::DecodeFailed { reason }) => Self::refused(
                IngestError::DecodeError { reason },
            ),
            (Pipeline::Beginning { total }, Signal::Begun) => if total == 0 {
                (Pipeline::Committing, Action::Commit)
            } else {
                (Pipeline::Validating { index: 0, total }, Action::Validate { index: 0 })
            },
            (Pipeline::Validating { index, total }, Signal::Valid) => (
                Pipeline::Persisting { index, total },
                Action::Persist { index },
            ),
            (Pipeline::Validating { index, total }, Signal::Invalid { reason }) => Self::refused(
                IngestError::ValidationError { index, reason },
            ),
            (Pipeline::Persisting { index, total }, Signal::Persisted) => (
                Pipeline::Counting { index, total },
                Action::Count { index },
            ),
            (Pipeline::Persisting { index, total }, Signal::PersistFailed { fault }) => {
                Self::refused(IngestError::from_store(fault))
            },
            (Pipeline::Counting { index, total }, Signal::Counted) => Self::proceeded(index, total),
            (Pipeline::Counting { index, total }, Signal::CountFailed) => Self::proceeded(
                index,
                total,
            ),
            (Pipeline::Committing, Signal::Committed) => (
                Pipeline::Finished,
                Action::Finish { outcome: Ok(()) },
            ),
            (Pipeline::Committing, Signal::CommitFailed) => Self::refused(IngestError::CommitError),
            _ => Self::refused(IngestError::StorageError),
        }
    }
}

impl Pipeline {
    /// The state after the first `n` of the signals.
    pub open spec fn state_after(self, signals: Seq<SignalView>, n: nat) -> Pipeline
        decreases n,
    {
        if n == 0 {
            self
        } else {
            self.state_after(signals, (n - 1) as nat).after(signals[n - 1]).0
        }
    }

    /// The action that answers the signal at position `n`.
    pub open spec fn action_at(self, signals: Seq<SignalView>, n: nat) -> ActionView {
        self.state_after(signals, n).after(signals[n as int]).1
    }
}

/// Whether the signals hold, for the event at `index`, that it was
/// accepted by the validator, then written, then counted or not.
pub open spec fn event_handled(signals: Seq<SignalView>, index: int) -> bool {
    &&& signals[2 + 3 * index] == SignalView::Valid
    &&& signals[3 + 3 * index] == SignalView::Persisted
    &&& (signals[4 + 3 * index] is Counted || signals[4 + 3 * index] is CountFailed)
}

/// Whether the signals start with those of a batch of `total` events that
/// decoded and whose transaction opened, followed by those of the events
/// below `done`, each handled.
pub open spec fn handled_below(signals: Seq<SignalView>, total: usize, done: int) -> bool {
    &&& signals[0] == (SignalView::Decoded { count: total })
    &&& signals[1] == SignalView::Begun
    &&& forall|index: int| 0 <= index < done ==> #[trigger] event_handled(signals, index)
}

/// What holds of a state that was reached from `Decoding` by the first
/// `n` signals.
spec fn on_course(signals: Seq<SignalView>, n: nat, state: Pipeline) -> bool {
    match state {
        Pipeline::Decoding => n == 0,
        Pipeline::Beginning { total } => n == 1 && signals[0] == (SignalView::Decoded {
            count: total,
        }),
        Pipeline::Validating { index, total } => {
            &&& index < total
            &&& n == 2 + 3 * index
            &&& handled_below(signals, total, index as int)
        },
        Pipeline::Persisting { index, total } => {
            &&& index < total
            &&& n == 3 + 3 * index
            &&& handled_below(signals, total, index as int)
            &&& signals[2 + 3 * index] == SignalView::Valid
        },
        Pipeline::Counting { index, total } => {
            &&& index < total
            &&& n == 4 + 3 * index
            &&& handled_below(signals, total, index as int)
            &&& signals[2 + 3 * index] == SignalView::Valid
            &&& signals[3 + 3 * index] == SignalView::Persisted
        },
        Pipeline::Committing => {
            &&& signals[0] is Decoded
            &&& n == 2 + 3 * signals[0]->Decoded_count
            &&& handled_below(signals, signals[0]->Decoded_count, signals[0]->Decoded_count as int)
        },
        Pipeline::Finished => true,
    }
}

proof fn lemma_on_course(signals: Seq<SignalView>, n: nat)
    ensures
        on_course(signals, n, Pipeline::Decoding.state_after(signals, n)),
    decreases n,
{
    if n > 0 {
        let before = Pipeline::Decoding.state_after(signals, (n - 1) as nat);
        lemma_on_course(signals, (n - 1) as nat);
        let state = before.after(signals[n - 1]).0;
        match before {
            Pipeline::Counting { index, total } => {
                if state is Validating || state is Committing {
                    assert(event_handled(signals, index as int));
                    assert(handled_below(signals, total, index + 1));
                }
            },
            _ => {},
        }
    }
}

/// The commit is asked for only once every event of the batch has been
/// handled: the signals before it are those of the decoded batch and of
/// the opened transaction, followed for each event, in batch order, by
/// those of its validation, of its writing and of its count.
pub proof fn lemma_commit_follows_every_event(signals: Seq<SignalView>, n: nat)
    requires
        Pipeline::Decoding.action_at(signals, n) == ActionView::Commit,
    ensures
        signals[0] is Decoded,
        n == 1 + 3 * signals[0]->Decoded_count,
        handled_below(signals, signals[0]->Decoded_count, signals[0]->Decoded_count as int),
{
    lemma_on_course(signals, n);
    let state = Pipeline::Decoding.state_after(signals, n);
    match state {
        Pipeline::Counting { index, total } => {
            assert(event_handled(signals, index as int));
            assert(handled_below(signals, total, index + 1));
        },
        _ => {},
    }
}

/// Success is reported only in answer to the commit that succeeded.
pub proof fn lemma_success_follows_commit(state: Pipeline, signal: SignalView)
    requires
        state.after(signal).1 == (ActionView::Finish { outcome: Ok(()) }),
    ensures
        state == Pipeline::Committing,
        signal == SignalView::Committed,
{
}

/// A count that could not be emitted changes nothing: the batch goes on
/// as if it had been.
pub proof fn lemma_count_failure_is_ignored(state: Pipeline)
    ensures
        state.after(SignalView::CountFailed) == state.after(SignalView::Counted),
{
}

/// A failure ends the batch: whatever the state, the answer to a signal
/// of failure is not the commit, and the state that follows is
/// `Finished`, which every signal leaves as it is.
pub proof fn lemma_failure_ends_batch(state: Pipeline, signal: SignalView, later: SignalView)
    requires
        signal.is_failure(),
    ensures
        state.after(signal).0 == Pipeline::Finished,
        state.after(signal).1 != ActionView::Commit,
        Pipeline::Finished.after(later) == (Pipeline::Finished, ActionView::Idle),
{
}

/// Once a signal of failure has come, the commit is never asked for: a
/// batch in which an event was rejected or could not be written is
/// abandoned, wherever in the batch the event stands.
pub proof fn lemma_no_commit_after_failure(
    start: Pipeline,
    signals: Seq<SignalView>,
    k: nat,
    n: nat,
)
    requires
        signals[k as int].is_failure(),
        k <= n,
    ensures
        start.action_at(signals, n) != ActionView::Commit,
        n > k ==> start.action_at(signals, n) == ActionView::Idle,
    decreases n,
{
    if n > k {
        lemma_finished_after_failure(start, signals, k, n);
    }
}

proof fn lemma_finished_after_failure(start: Pipeline, signals: Seq<SignalView>, k: nat, n: nat)
    requires
        signals[k as int].is_failure(),
        k < n,
    ensures
        start.state_after(signals, n) == Pipeline::Finished,
    decreases n,
{
    if n > k + 1 {
        lemma_finished_after_failure(start, signals, k, (n - 1) as nat);
    }
}

impl Pipeline {
    /// The outcome that is handed out in answer to these signals, if one
    /// is.
    pub open spec fn outcome_of(self, signals: Seq<SignalView>) -> Option<
        Result<(), IngestErrorView>,
    >
        decreases signals.len(),
    {
        if signals.len() == 0 {
            None
        } else {
            match self.after(signals[0]).1 {
                ActionView::Finish { outcome } => Some(outcome),
                _ => self.after(signals[0]).0.outcome_of(signals.drop_first()),
            }
        }
    }

    /// The state in which the event at `index` of a batch of `total`
    /// events is awaited, or the commit after the last one.
    pub open spec fn awaiting(index: int, total: int) -> Pipeline {
        if index < total {
            Pipeline::Validating { index: index as usize, total: total as usize }
        } else {
            Pipeline::Committing
        }
    }
}

/// The signals of a handler whose writes are those of the store in
/// memory, for the events of a batch from position `from` on: each event
/// is valid or not as the validator said, is written or not as the store
/// says, and its count is emitted; the commit after the last event
/// succeeds.
pub open spec fn signals_from(
    s: Relations,
    batch: Seq<Result<EventView, Seq<char>>>,
    from: int,
) -> Seq<SignalView>
    decreases batch.len() - from,
{
    if from < 0 || from >= batch.len() {
        seq![SignalView::Committed]
    } else {
        match batch[from] {
            Err(reason) => seq![SignalView::Invalid { reason }],
            Ok(event) => match s.persist_event(event) {
                Err(fault) => seq![SignalView::Valid, SignalView::PersistFailed { fault }],
                Ok(next) => seq![SignalView::Valid, SignalView::Persisted, SignalView::Counted]
                    + signals_from(next, batch, from + 1),
            },
        }
    }
}

/// The signals of such a handler for a whole batch that decoded and whose
/// transaction opened.
pub open spec fn signals_of(s: Relations, batch: Seq<Result<EventView, Seq<char>>>) -> Seq<
    SignalView,
> {
    seq![SignalView::Decoded { count: batch.len() as usize }, SignalView::Begun] + signals_from(
        s,
        batch,
        0,
    )
}

/// What the caller is told of an ingestion into the store in memory.
pub open spec fn told(ingested: Result<Relations, IngestErrorView>) -> Result<
    (),
    IngestErrorView,
> {
    match ingested {
        Ok(_) => Ok(()),
        Err(fault) => Err(fault),
    }
}

proof fn lemma_outcome_unfolds(state: Pipeline, signals: Seq<SignalView>)
    requires
        signals.len() > 0,
    ensures
        state.outcome_of(signals) == match state.after(signals[0]).1 {
            ActionView::Finish { outcome } => Some(outcome),
            _ => state.after(signals[0]).0.outcome_of(signals.drop_first()),
        },
{
}

proof fn lemma_pipeline_follows_store_from(
    s: Relations,
    batch: Seq<Result<EventView, Seq<char>>>,
    from: int,
)
    requires
        0 <= from <= batch.len() <= usize::MAX,
    ensures
        Pipeline::awaiting(from, batch.len() as int).outcome_of(signals_from(s, batch, from))
            == Some(told(s.ingest_from(batch, from))),
    decreases batch.len() - from,
{
    let total = batch.len() as int;
    let state = Pipeline::awaiting(from, total);
    let signals = signals_from(s, batch, from);
    lemma_outcome_unfolds(state, signals);
    if from < total {
        if let Ok(event) = batch[from] {
            let written = Pipeline::Persisting { index: from as usize, total: total as usize };
            let second = signals.drop_first();
            assert(second[0] == signals[1]);
            lemma_outcome_unfolds(written, second);
            match s.persist_event(event) {
                Ok(next) => {
                    let counting = Pipeline::Counting {
                        index: from as usize,
                        total: total as usize,
                    };
                    let third = second.drop_first();
                    assert(third[0] == signals[2]);
                    lemma_outcome_unfolds(counting, third);
                    assert(counting.after(third[0]).0 == Pipeline::awaiting(from + 1, total));
                    assert(third.drop_first() =~= signals_from(next, batch, from + 1));
                    lemma_pipeline_follows_store_from(next, batch, from + 1);
                },
                Err(_) => {},
            }
        }
    }
}

/// A handler whose writes are those of the store in memory tells its
/// caller what `ingest_batch` tells: success for the batches that the
/// store accepts, and for each batch that it refuses the same fault.
pub proof fn lemma_pipeline_follows_store(s: Relations, batch: Seq<Result<EventView, Seq<char>>>)
    requires
        batch.len() <= usize::MAX,
    ensures
        Pipeline::Decoding.outcome_of(signals_of(s, batch)) == Some(told(s.ingest_batch(batch))),
{
    let signals = signals_of(s, batch);
    let total = batch.len() as usize;
    let beginning = Pipeline::Beginning { total };
    let second = signals.drop_first();
    assert(second[0] == signals[1]);
    lemma_outcome_unfolds(Pipeline::Decoding, signals);
    lemma_outcome_unfolds(beginning, second);
    assert(beginning.after(second[0]).0 == Pipeline::awaiting(0, batch.len() as int));
    assert(second.drop_first() =~= signals_from(s, batch, 0));
    lemma_pipeline_follows_store_from(s, batch, 0);
}

} // verus!
