//! Ingestion of batches: every event of a batch is stored, or none.

use vstd::prelude::*;

use crate::error::{ingest_fault, IngestError, IngestErrorView, StoreError};
use crate::model::{Event, EventView, PointerView, ReferenceView};
use crate::store::{row_of_event, EventId, EventRowView, Store, Relations};

verus! {

/// What the validator said of one event of a batch: the event, if its
/// proof and structure hold, else the reason why they do not.
pub open spec fn outcome_view(outcome: Result<Event, String>) -> Result<EventView, Seq<char>> {
    match outcome {
        Ok(event) => Ok(event@),
        Err(reason) => Err(reason@),
    }
}

/// Mathematical value of a batch of validation outcomes.
pub open spec fn batch_view(outcomes: Seq<Result<Event, String>>) -> Seq<
    Result<EventView, Seq<char>>,
> {
    outcomes.map_values(|outcome: Result<Event, String>| outcome_view(outcome))
}

impl Relations {
    /// The store after one link has been written for each of the
    /// references from position `from` on, in their order, or the first
    /// fault.
    pub open spec fn insert_links_from(
        self,
        event_id: nat,
        references: Seq<ReferenceView>,
        from: int,
    ) -> Result<Relations, StoreError>
        decreases references.len() - from,
    {
        if from < 0 || from >= references.len() {
            Ok(self)
        } else {
            match self.insert_link(event_id, references[from]) {
                Ok(next) => next.insert_links_from(event_id, references, from + 1),
                Err(fault) => Err(fault),
            }
        }
    }

    /// The store after an event has been written whole: its row, then its
    /// last-write-wins element if it has one, then one link for each of
    /// its references. Or the first fault.
    pub open spec fn persist_event(self, event: EventView) -> Result<Relations, StoreError> {
        let event_id = self.events.len();
        match self.insert_event(event) {
            Err(fault) => Err(fault),
            Ok(with_row) => {
                let with_element = match event.lww_element {
                    Some(element) => with_row.insert_lww_element(
                        event_id,
                        element.value,
                        element.unix_milliseconds,
                    ),
                    None => Ok(with_row),
                };
                match with_element {
                    Err(fault) => Err(fault),
                    Ok(store) => store.insert_links_from(event_id, event.references, 0),
                }
            },
        }
    }

    /// The store after the events from position `from` on have been
    /// written, in batch order, or the first fault: `ValidationError` with
    /// the position and the reason of an event that the validator
    /// rejected, or the fault of the store on an event that it accepted.
    pub open spec fn ingest_from(
        self,
        batch: Seq<Result<EventView, Seq<char>>>,
        from: int,
    ) -> Result<Relations, IngestErrorView>
        decreases batch.len() - from,
    {
        if from < 0 || from >= batch.len() {
            Ok(self)
        } else {
            match batch[from] {
                Err(reason) => Err(
                    IngestErrorView::ValidationError { index: from as nat, reason },
                ),
                Ok(event) => match self.persist_event(event) {
                    Err(fault) => Err(ingest_fault(fault)),
                    Ok(next) => next.ingest_from(batch, from + 1),
                },
            }
        }
    }

    /// The store after a batch has been ingested, or the fault for which
    /// the batch is refused.
    pub open spec fn ingest_batch(self, batch: Seq<Result<EventView, Seq<char>>>) -> Result<
        Relations,
        IngestErrorView,
    > {
        self.ingest_from(batch, 0)
    }
}

impl Store {
    /// Writes an event whole. On a fault, the rows written so far stay:
    /// the caller rolls back.
    fn persist_event(&mut self, event: &Event) -> (made: Result<(), StoreError>)
        requires
            old(self).wf(),
        ensures
            final(self).wf(),
            old(self)@.is_prefix_of(final(self)@),
            match old(self)@.persist_event(event@) {
                Ok(after) => made is Ok && final(self)@ == after,
                Err(fault) => made == Err::<(), StoreError>(fault),
            },
    {
        let ghost start = self@;
        let event_id: EventId = match self.insert_event(event) {
            Ok(id) => id,
            Err(fault) => {
                return Err(fault);
            },
        };
        let ghost with_row = self@;
        assert(start.insert_event(event@) == Ok::<Relations, StoreError>(with_row));
        match &event.lww_element {
            Some(element) => {
                assert(event@.lww_element == Some(element@));
                if let Err(fault) = self.insert_lww_element(
                    event_id,
                    &element.value,
                    element.unix_milliseconds,
                ) {
                    return Err(fault);
                }
            },
            None => {
                assert(event@.lww_element is None);
            },
        }
        let mut i: usize = 0;
        while i < event.references.len()
            invariant
                self.wf(),
                start == old(self)@,
                start.is_prefix_of(self@),
                i <= event.references.len(),
                start.persist_event(event@) == self@.insert_links_from(
                    event_id as nat,
                    event@.references,
                    i as int,
                ),
            decreases event.references.len() - i,
        {
            if let Err(fault) = self.insert_link(event_id, &event.references[i]) {
                return Err(fault);
            }
            i += 1;
        }
        Ok(())
    }

    /// Ingests a batch: writes every event of it, in batch order, or
    /// nothing.
    ///
    /// `outcomes` holds, for each event of the batch, what the validator
    /// said of it. The batch is refused with `ValidationError` at the
    /// first event that the validator rejected, and with the fault of the
    /// store at the first event that cannot be written: `RangeError`,
    /// `DuplicateKey` (also for a key that occurs twice in the batch) or
    /// `UnsupportedReferenceKind`. Whichever comes first in batch order is
    /// reported. A refused batch leaves the store as it was: none of its
    /// events is stored, not even those before the one at fault.
    pub fn ingest_batch(&mut self, outcomes: &Vec<Result<Event, String>>) -> (done: Result<
        (),
        IngestError,
    >)
        requires
            old(self).wf(),
        ensures
            final(self).wf(),
            done is Err ==> final(self)@ == old(self)@,
            forall|k: int| 0 <= k < outcomes.len() && outcomes[k] is Err ==> done is Err,
            match old(self)@.ingest_batch(batch_view(outcomes@)) {
                Ok(after) => done is Ok && final(self)@ == after,
                Err(fault) => done matches Err(reported) && reported@ == fault,
            },
    {
        let ghost start = self@;
        let ghost batch = batch_view(outcomes@);
        proof {
            assert forall|k: int| 0 <= k < outcomes.len() && outcomes[k] is Err implies start
                .ingest_batch(batch) is Err by {
                lemma_rejected_event_refuses_batch(start, batch, k);
            }
        }
        let mark = self.savepoint();
        let mut i: usize = 0;
        while i < outcomes.len()
            invariant
                self.wf(),
                start == old(self)@,
                start.wf(),
                mark.marks(start),
                start.is_prefix_of(self@),
                batch == batch_view(outcomes@),
                i <= outcomes.len(),
                start.ingest_from(batch, 0) == self@.ingest_from(batch, i as int),
            decreases outcomes.len() - i,
        {
            assert(batch[i as int] == outcome_view(outcomes@[i as int]));
            match &outcomes[i] {
                Err(reason) => {
                    let reported = IngestError::ValidationError { index: i, reason: reason.clone() };
                    self.rollback_to(&mark, Ghost(start));
                    return Err(reported);
                },
                Ok(event) => {
                    if let Err(fault) = self.persist_event(event) {
                        self.rollback_to(&mark, Ghost(start));
                        return Err(IngestError::from_store(fault));
                    }
                },
            }
            i += 1;
        }
        Ok(())
    }
}

/// A batch in which the validator rejected an event is refused, wherever
/// in the batch the event stands: also where it is the last one.
pub proof fn lemma_rejected_event_refuses_batch(
    s: Relations,
    batch: Seq<Result<EventView, Seq<char>>>,
    k: int,
)
    requires
        0 <= k < batch.len(),
        batch[k] is Err,
    ensures
        s.ingest_batch(batch) is Err,
{
    lemma_rejected_event_refuses_rest(s, batch, 0, k);
}

proof fn lemma_rejected_event_refuses_rest(
    s: Relations,
    batch: Seq<Result<EventView, Seq<char>>>,
    from: int,
    k: int,
)
    requires
        0 <= from <= k < batch.len(),
        batch[k] is Err,
    ensures
        s.ingest_from(batch, from) is Err,
    decreases k - from,
{
    if from < k {
        if let Ok(event) = batch[from] {
            if let Ok(next) = s.persist_event(event) {
                lemma_rejected_event_refuses_rest(next, batch, from + 1, k);
            }
        }
    }
}

/// Writing links changes neither the events nor which ids are known.
proof fn lemma_links_keep_events(
    s: Relations,
    event_id: nat,
    references: Seq<ReferenceView>,
    from: int,
)
    requires
        s.insert_links_from(event_id, references, from) is Ok,
    ensures
        s.insert_links_from(event_id, references, from)->Ok_0.events == s.events,
    decreases references.len() - from,
{
    if 0 <= from < references.len() {
        let next = s.insert_link(event_id, references[from])->Ok_0;
        lemma_links_keep_events(next, event_id, references, from + 1);
    }
}

/// Writing an event whole adds its row to the events and no other.
proof fn lemma_persist_adds_row(s: Relations, event: EventView)
    requires
        s.persist_event(event) is Ok,
    ensures
        s.persist_event(event)->Ok_0.events == s.events.push(row_of_event(event)),
        !s.has_key(event.key()),
{
    let with_row = s.insert_event(event)->Ok_0;
    let with_element = match event.lww_element {
        Some(element) => with_row.insert_lww_element(
            s.events.len(),
            element.value,
            element.unix_milliseconds,
        )->Ok_0,
        None => with_row,
    };
    lemma_links_keep_events(with_element, s.events.len(), event.references, 0);
}

/// A key that is stored stays stored when a row is added.
proof fn lemma_pushed_row_keeps_keys(s: Relations, t: Relations, row: EventRowView)
    requires
        t.events == s.events.push(row),
    ensures
        t.has_key(row.key),
        forall|key: PointerView| s.has_key(key) ==> t.has_key(key),
{
    assert(t.events[s.events.len() as int].key == row.key);
    assert forall|key: PointerView| s.has_key(key) implies t.has_key(key) by {
        let i = choose|i: int| 0 <= i < s.events.len() && (#[trigger] s.events[i]).key == key;
        assert(t.events[i].key == key);
    }
}

/// A batch that holds an event whose key is stored is refused.
proof fn lemma_stored_key_refuses_rest(
    s: Relations,
    batch: Seq<Result<EventView, Seq<char>>>,
    from: int,
    j: int,
)
    requires
        0 <= from <= j < batch.len(),
        batch[j] is Ok,
        s.has_key(batch[j]->Ok_0.key()),
    ensures
        s.ingest_from(batch, from) is Err,
    decreases j - from,
{
    if from < j {
        if let Ok(event) = batch[from] {
            if let Ok(next) = s.persist_event(event) {
                lemma_persist_adds_row(s, event);
                lemma_pushed_row_keeps_keys(s, next, row_of_event(event));
                lemma_stored_key_refuses_rest(next, batch, from + 1, j);
            }
        }
    }
}

/// After a batch has been ingested, the key of each of its events is
/// stored, and so is every key that was stored before.
proof fn lemma_ingested_keys_are_stored(
    s: Relations,
    batch: Seq<Result<EventView, Seq<char>>>,
    from: int,
    i: int,
)
    requires
        0 <= from <= i < batch.len(),
        s.ingest_from(batch, from) is Ok,
    ensures
        batch[i] is Ok,
        s.ingest_from(batch, from)->Ok_0.has_key(batch[i]->Ok_0.key()),
        forall|key: PointerView|
            s.has_key(key) ==> s.ingest_from(batch, from)->Ok_0.has_key(key),
    decreases batch.len() - from,
{
    let event = batch[from]->Ok_0;
    let next = s.persist_event(event)->Ok_0;
    lemma_persist_adds_row(s, event);
    lemma_pushed_row_keeps_keys(s, next, row_of_event(event));
    if from < i {
        lemma_ingested_keys_are_stored(next, batch, from + 1, i);
    } else {
        lemma_stored_keys_stay(next, batch, from + 1);
    }
}

/// Ingesting a batch removes no key from the store.
proof fn lemma_stored_keys_stay(
    s: Relations,
    batch: Seq<Result<EventView, Seq<char>>>,
    from: int,
)
    requires
        0 <= from,
        s.ingest_from(batch, from) is Ok,
    ensures
        forall|key: PointerView|
            s.has_key(key) ==> s.ingest_from(batch, from)->Ok_0.has_key(key),
    decreases batch.len() - from,
{
    if from < batch.len() {
        let event = batch[from]->Ok_0;
        let next = s.persist_event(event)->Ok_0;
        lemma_persist_adds_row(s, event);
        lemma_pushed_row_keeps_keys(s, next, row_of_event(event));
        lemma_stored_keys_stay(next, batch, from + 1);
    }
}

/// Links that one store accepts for an event, another store accepts for
/// any event that it knows.
proof fn lemma_links_accepted_alike(
    s: Relations,
    t: Relations,
    s_id: nat,
    t_id: nat,
    references: Seq<ReferenceView>,
    from: int,
)
    requires
        s.insert_links_from(s_id, references, from) is Ok,
        t.knows(t_id),
    ensures
        t.insert_links_from(t_id, references, from) is Ok,
    decreases references.len() - from,
{
    if 0 <= from < references.len() {
        let s_next = s.insert_link(s_id, references[from])->Ok_0;
        let t_next = t.insert_link(t_id, references[from])->Ok_0;
        lemma_links_accepted_alike(s_next, t_next, s_id, t_id, references, from + 1);
    }
}

/// An event that one store accepts, every store accepts unless it holds
/// the event's key.
proof fn lemma_event_accepted_alike(s: Relations, t: Relations, event: EventView)
    requires
        s.persist_event(event) is Ok,
    ensures
        t.persist_event(event) is Ok || t.persist_event(event) == Err::<Relations, StoreError>(
            StoreError::DuplicateKey,
        ),
{
    if !t.has_key(event.key()) {
        let s_row = s.insert_event(event)->Ok_0;
        let t_row = t.insert_event(event)->Ok_0;
        let s_id = s.events.len();
        let t_id = t.events.len();
        let s_element = match event.lww_element {
            Some(element) => s_row.insert_lww_element(
                s_id,
                element.value,
                element.unix_milliseconds,
            )->Ok_0,
            None => s_row,
        };
        let t_element = match event.lww_element {
            Some(element) => t_row.insert_lww_element(
                t_id,
                element.value,
                element.unix_milliseconds,
            )->Ok_0,
            None => t_row,
        };
        lemma_links_accepted_alike(s_element, t_element, s_id, t_id, event.references, 0);
    }
}

/// A batch that one store accepts, every store accepts or refuses with
/// `DuplicateKey`.
proof fn lemma_batch_accepted_alike(
    s: Relations,
    t: Relations,
    batch: Seq<Result<EventView, Seq<char>>>,
    from: int,
)
    requires
        s.ingest_from(batch, from) is Ok,
    ensures
        t.ingest_from(batch, from) is Ok || t.ingest_from(batch, from) == Err::<
            Relations,
            IngestErrorView,
        >(IngestErrorView::DuplicateKey),
    decreases batch.len() - from,
{
    if 0 <= from < batch.len() {
        let event = batch[from]->Ok_0;
        lemma_event_accepted_alike(s, t, event);
        if let Ok(t_next) = t.persist_event(event) {
            lemma_batch_accepted_alike(s.persist_event(event)->Ok_0, t_next, batch, from + 1);
        }
    }
}

/// Of two batches that hold an event with the same system, process and
/// logical clock, the store never accepts both: once it has accepted one,
/// it refuses the other, and with `DuplicateKey` if the other was
/// acceptable before.
pub proof fn lemma_shared_key_refuses_second_batch(
    s: Relations,
    first: Seq<Result<EventView, Seq<char>>>,
    second: Seq<Result<EventView, Seq<char>>>,
    i: int,
    j: int,
)
    requires
        s.ingest_batch(first) is Ok,
        0 <= i < first.len(),
        0 <= j < second.len(),
        first[i] is Ok,
        second[j] is Ok,
        first[i]->Ok_0.key() == second[j]->Ok_0.key(),
    ensures
        s.ingest_batch(first)->Ok_0.ingest_batch(second) is Err,
        s.ingest_batch(second) is Ok ==> s.ingest_batch(first)->Ok_0.ingest_batch(second)
            == Err::<Relations, IngestErrorView>(IngestErrorView::DuplicateKey),
{
    let after = s.ingest_batch(first)->Ok_0;
    lemma_ingested_keys_are_stored(s, first, 0, i);
    lemma_stored_key_refuses_rest(after, second, 0, j);
    if s.ingest_batch(second) is Ok {
        lemma_batch_accepted_alike(s, after, second, 0);
    }
}

} // verus!
