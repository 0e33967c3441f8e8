//! The relations of the event store and the operations that write them.
//!
//! The store is append-only. It keeps four relations: the events, the
//! last-write-wins elements attached to events, the links from events to
//! other events, and the links from events to outside content. A row of
//! the last three names its event by the event's id, which is the position
//! of the event's row in the first.
//!
//! Integers are kept in signed 64-bit columns. A number above
//! [`NATIVE_MAX`] is refused with `RangeError`, never truncated.

use vstd::prelude::*;

use crate::error::StoreError;
use crate::model::{Event, EventView, Pointer, PointerView, Reference, ReferenceView};

verus! {

/// The largest number that a column of the store holds.
pub const NATIVE_MAX: u64 = 0x7fff_ffff_ffff_ffff;

/// Identifies a stored event: the position of its row.
pub type EventId = usize;

/// Whether a number fits a column of the store.
pub open spec fn fits_native(x: u64) -> bool {
    x <= NATIVE_MAX
}

/// Whether the numbers of an event key fit the store.
pub open spec fn pointer_fits(pointer: PointerView) -> bool {
    fits_native(pointer.system.key_type) && fits_native(pointer.logical_clock)
}

/// Whether the numbers of an event's own row fit the store.
pub open spec fn event_fits(event: EventView) -> bool {
    pointer_fits(event.key()) && fits_native(event.content_type)
}

/// Row of the events relation.
#[derive(Debug)]
pub struct EventRow {
    pub key: Pointer,
    pub content_type: u64,
    pub content: Vec<u8>,
    pub signature: Vec<u8>,
}

/// Mathematical value of an [`EventRow`].
pub struct EventRowView {
    pub key: PointerView,
    pub content_type: u64,
    pub content: Seq<u8>,
    pub signature: Seq<u8>,
}

impl View for EventRow {
    type V = EventRowView;

    open spec fn view(&self) -> EventRowView {
        EventRowView {
            key: self.key@,
            content_type: self.content_type,
            content: self.content@,
            signature: self.signature@,
        }
    }
}

/// Row of the relation of last-write-wins elements.
#[derive(Debug)]
pub struct LwwRow {
    pub event_id: EventId,
    pub value: Vec<u8>,
    pub unix_milliseconds: u64,
}

/// Mathematical value of a [`LwwRow`].
pub struct LwwRowView {
    pub event_id: nat,
    pub value: Seq<u8>,
    pub unix_milliseconds: u64,
}

impl View for LwwRow {
    type V = LwwRowView;

    open spec fn view(&self) -> LwwRowView {
        LwwRowView {
            event_id: self.event_id as nat,
            value: self.value@,
            unix_milliseconds: self.unix_milliseconds,
        }
    }
}

/// Row of the relation of links to events.
#[derive(Debug)]
pub struct EventLink {
    pub event_id: EventId,
    pub subject: Pointer,
}

/// Mathematical value of an [`EventLink`].
pub struct EventLinkView {
    pub event_id: nat,
    pub subject: PointerView,
}

impl View for EventLink {
    type V = EventLinkView;

    open spec fn view(&self) -> EventLinkView {
        EventLinkView { event_id: self.event_id as nat, subject: self.subject@ }
    }
}

/// Row of the relation of links to outside content.
#[derive(Debug)]
pub struct BytesLink {
    pub event_id: EventId,
    pub subject_bytes: Vec<u8>,
}

/// Mathematical value of a [`BytesLink`].
pub struct BytesLinkView {
    pub event_id: nat,
    pub subject_bytes: Seq<u8>,
}

impl View for BytesLink {
    type V = BytesLinkView;

    open spec fn view(&self) -> BytesLinkView {
        BytesLinkView { event_id: self.event_id as nat, subject_bytes: self.subject_bytes@ }
    }
}

/// Mathematical value of a [`Store`]: its four relations, each in the
/// order in which its rows were written.
pub struct Relations {
    pub events: Seq<EventRowView>,
    pub lww_elements: Seq<LwwRowView>,
    pub event_links: Seq<EventLinkView>,
    pub byte_links: Seq<BytesLinkView>,
}

/// The row that stores an event.
pub open spec fn row_of_event(event: EventView) -> EventRowView {
    EventRowView {
        key: event.key(),
        content_type: event.content_type,
        content: event.content,
        signature: event.signature,
    }
}

impl Relations {
    /// The store without rows.
    pub open spec fn empty() -> Relations {
        Relations {
            events: Seq::empty(),
            lww_elements: Seq::empty(),
            event_links: Seq::empty(),
            byte_links: Seq::empty(),
        }
    }

    /// Whether an event with this key is stored.
    pub open spec fn has_key(self, key: PointerView) -> bool {
        exists|i: int| 0 <= i < self.events.len() && (#[trigger] self.events[i]).key == key
    }

    /// Whether `id` is the id of a stored event.
    pub open spec fn knows(self, id: nat) -> bool {
        id < self.events.len()
    }

    /// What the store requires of its rows: no two events share a key,
    /// every row of the other relations belongs to a stored event, and
    /// every number fits its column.
    pub open spec fn wf(self) -> bool {
        &&& forall|i: int, j: int|
            0 <= i < j < self.events.len() ==> (#[trigger] self.events[i]).key != (
            #[trigger] self.events[j]).key
        &&& forall|i: int|
            0 <= i < self.events.len() ==> {
                let row = #[trigger] self.events[i];
                pointer_fits(row.key) && fits_native(row.content_type)
            }
        &&& forall|r: int|
            0 <= r < self.lww_elements.len() ==> {
                let row = #[trigger] self.lww_elements[r];
                self.knows(row.event_id) && fits_native(row.unix_milliseconds)
            }
        &&& forall|l: int|
            0 <= l < self.event_links.len() ==> {
                let row = #[trigger] self.event_links[l];
                self.knows(row.event_id) && pointer_fits(row.subject)
            }
        &&& forall|l: int|
            0 <= l < self.byte_links.len() ==> self.knows((#[trigger] self.byte_links[l]).event_id)
    }

    /// Whether `other` holds the rows of this store, in the same order,
    /// followed by any number of further rows.
    pub open spec fn is_prefix_of(self, other: Relations) -> bool {
        &&& self.events.is_prefix_of(other.events)
        &&& self.lww_elements.is_prefix_of(other.lww_elements)
        &&& self.event_links.is_prefix_of(other.event_links)
        &&& self.byte_links.is_prefix_of(other.byte_links)
    }

    /// The store after `insert_event`, or the fault that leaves it as it
    /// is: `RangeError` if a number of the event does not fit, else
    /// `DuplicateKey` if the key is taken.
    pub open spec fn insert_event(self, event: EventView) -> Result<Relations, StoreError> {
        if !event_fits(event) {
            Err(StoreError::RangeError)
        } else if self.has_key(event.key()) {
            Err(StoreError::DuplicateKey)
        } else {
            Ok(Relations { events: self.events.push(row_of_event(event)), ..self })
        }
    }

    /// The store after `insert_lww_element`, or the fault that leaves it as
    /// it is: `RangeError` if the time does not fit, else `StorageError` if
    /// no event has this id.
    pub open spec fn insert_lww_element(
        self,
        event_id: nat,
        value: Seq<u8>,
        unix_milliseconds: u64,
    ) -> Result<Relations, StoreError> {
        if !fits_native(unix_milliseconds) {
            Err(StoreError::RangeError)
        } else if !self.knows(event_id) {
            Err(StoreError::StorageError)
        } else {
            Ok(
                Relations {
                    lww_elements: self.lww_elements.push(
                        LwwRowView { event_id, value, unix_milliseconds },
                    ),
                    ..self
                },
            )
        }
    }

    /// The store after `insert_link`, or the fault that leaves it as it
    /// is: `UnsupportedReferenceKind` for a reserved reference, else
    /// `RangeError` if a number of a pointer does not fit, else
    /// `StorageError` if no event has this id.
    pub open spec fn insert_link(self, event_id: nat, reference: ReferenceView) -> Result<
        Relations,
        StoreError,
    > {
        match reference {
            ReferenceView::Reserved { .. } => Err(StoreError::UnsupportedReferenceKind),
            ReferenceView::Pointer(subject) => {
                if !pointer_fits(subject) {
                    Err(StoreError::RangeError)
                } else if !self.knows(event_id) {
                    Err(StoreError::StorageError)
                } else {
                    Ok(
                        Relations {
                            event_links: self.event_links.push(EventLinkView { event_id, subject }),
                            ..self
                        },
                    )
                }
            },
            ReferenceView::Bytes(subject_bytes) => {
                if !self.knows(event_id) {
                    Err(StoreError::StorageError)
                } else {
                    Ok(
                        Relations {
                            byte_links: self.byte_links.push(
                                BytesLinkView { event_id, subject_bytes },
                            ),
                            ..self
                        },
                    )
                }
            },
        }
    }
}

/// An event store held in memory.
pub struct Store {
    events: Vec<EventRow>,
    lww_elements: Vec<LwwRow>,
    event_links: Vec<EventLink>,
    byte_links: Vec<BytesLink>,
}

impl View for Store {
    type V = Relations;

    closed spec fn view(&self) -> Relations {
        Relations {
            events: self.events@.map_values(|row: EventRow| row@),
            lww_elements: self.lww_elements@.map_values(|row: LwwRow| row@),
            event_links: self.event_links@.map_values(|row: EventLink| row@),
            byte_links: self.byte_links@.map_values(|row: BytesLink| row@),
        }
    }
}

/// The sizes of the four relations of a store at one moment.
pub(crate) struct Savepoint {
    events: usize,
    lww_elements: usize,
    event_links: usize,
    byte_links: usize,
}

impl Savepoint {
    /// Whether the savepoint was taken of a store with these rows.
    pub(crate) closed spec fn marks(&self, s: Relations) -> bool {
        &&& self.events == s.events.len()
        &&& self.lww_elements == s.lww_elements.len()
        &&& self.event_links == s.event_links.len()
        &&& self.byte_links == s.byte_links.len()
    }
}

/// Checks that a number fits a column of the store.
pub fn check_native(x: u64) -> (fits: bool)
    ensures
        fits == fits_native(x),
{
    x <= NATIVE_MAX
}

/// Checks that the numbers of an event key fit the store.
pub fn check_pointer(pointer: &Pointer) -> (fits: bool)
    ensures
        fits == pointer_fits(pointer@),
{
    check_native(pointer.system.key_type) && check_native(pointer.logical_clock)
}

impl Store {
    /// Whether the store meets what it requires of its rows.
    pub open spec fn wf(&self) -> bool {
        self@.wf()
    }

    /// A store without rows.
    pub fn new() -> (store: Store)
        ensures
            store.wf(),
            store@ == Relations::empty(),
    {
        let store = Store {
            events: Vec::new(),
            lww_elements: Vec::new(),
            event_links: Vec::new(),
            byte_links: Vec::new(),
        };
        assert(store@.events =~= Seq::empty());
        assert(store@.lww_elements =~= Seq::empty());
        assert(store@.event_links =~= Seq::empty());
        assert(store@.byte_links =~= Seq::empty());
        store
    }

    /// Number of stored events.
    pub fn event_count(&self) -> (count: usize)
        ensures
            count == self@.events.len(),
    {
        self.events.len()
    }

    /// Number of stored last-write-wins elements.
    pub fn lww_element_count(&self) -> (count: usize)
        ensures
            count == self@.lww_elements.len(),
    {
        self.lww_elements.len()
    }

    /// Number of stored links to events.
    pub fn event_link_count(&self) -> (count: usize)
        ensures
            count == self@.event_links.len(),
    {
        self.event_links.len()
    }

    /// Number of stored links to outside content.
    pub fn byte_link_count(&self) -> (count: usize)
        ensures
            count == self@.byte_links.len(),
    {
        self.byte_links.len()
    }

    /// The row of the event with this id.
    pub fn event(&self, id: EventId) -> (row: &EventRow)
        requires
            id < self@.events.len(),
        ensures
            row@ == self@.events[id as int],
    {
        &self.events[id]
    }

    /// The last-write-wins element at this position.
    pub fn lww_element(&self, position: usize) -> (row: &LwwRow)
        requires
            position < self@.lww_elements.len(),
        ensures
            row@ == self@.lww_elements[position as int],
    {
        &self.lww_elements[position]
    }

    /// The link to an event at this position.
    pub fn event_link(&self, position: usize) -> (row: &EventLink)
        requires
            position < self@.event_links.len(),
        ensures
            row@ == self@.event_links[position as int],
    {
        &self.event_links[position]
    }

    /// The link to outside content at this position.
    pub fn byte_link(&self, position: usize) -> (row: &BytesLink)
        requires
            position < self@.byte_links.len(),
        ensures
            row@ == self@.byte_links[position as int],
    {
        &self.byte_links[position]
    }

    /// Looks an event up by its key.
    pub fn find_event(&self, key: &Pointer) -> (found: Option<EventId>)
        ensures
            match found {
                Some(id) => id < self@.events.len() && self@.events[id as int].key == key@,
                None => !self@.has_key(key@),
            },
    {
        let mut i: usize = 0;
        while i < self.events.len()
            invariant
                i <= self.events.len(),
                forall|j: int| 0 <= j < i ==> (#[trigger] self@.events[j]).key != key@,
            decreases self.events.len() - i,
        {
            if self.events[i].key == *key {
                return Some(i);
            }
            i += 1;
        }
        None
    }

    /// Stores the row of an event and returns the event's id. Fails, and
    /// stores nothing, with `RangeError` if the key type, the logical clock
    /// or the content type does not fit the store, else with `DuplicateKey`
    /// if an event with the same system, process and logical clock is
    /// stored. The element and the references of the event are not written:
    /// see `insert_lww_element` and `insert_link`.
    pub fn insert_event(&mut self, event: &Event) -> (made: Result<EventId, StoreError>)
        requires
            old(self).wf(),
        ensures
            final(self).wf(),
            match old(self)@.insert_event(event@) {
                Ok(after) => made matches Ok(id) && id == old(self)@.events.len() && final(self)@
                    == after,
                Err(fault) => final(self)@ == old(self)@ && made == Err::<EventId, StoreError>(
                    fault,
                ),
            },
    {
        if !(check_native(event.system.key_type) && check_native(event.logical_clock)
            && check_native(event.content_type)) {
            return Err(StoreError::RangeError);
        }
        let key = Pointer {
            system: event.system.clone(),
            process: event.process.clone(),
            logical_clock: event.logical_clock,
        };
        if self.find_event(&key).is_some() {
            return Err(StoreError::DuplicateKey);
        }
        let id = self.events.len();
        let row = EventRow {
            key,
            content_type: event.content_type,
            content: event.content.clone(),
            signature: event.signature.clone(),
        };
        assert(row@ == row_of_event(event@));
        self.events.push(row);
        assert(self@.events =~= old(self)@.events.push(row_of_event(event@)));
        Ok(id)
    }

    /// Attaches a last-write-wins element to a stored event. Each call
    /// writes a row of its own: the store does not deduplicate. Fails, and
    /// stores nothing, with `RangeError` if the time does not fit the
    /// store, else with `StorageError` if no event has this id.
    pub fn insert_lww_element(
        &mut self,
        event_id: EventId,
        value: &Vec<u8>,
        unix_milliseconds: u64,
    ) -> (made: Result<(), StoreError>)
        requires
            old(self).wf(),
        ensures
            final(self).wf(),
            match old(self)@.insert_lww_element(event_id as nat, value@, unix_milliseconds) {
                Ok(after) => final(self)@ == after && made is Ok,
                Err(fault) => final(self)@ == old(self)@ && made == Err::<(), StoreError>(fault),
            },
    {
        if !check_native(unix_milliseconds) {
            return Err(StoreError::RangeError);
        }
        if event_id >= self.events.len() {
            return Err(StoreError::StorageError);
        }
        let row = LwwRow { event_id, value: value.clone(), unix_milliseconds };
        self.lww_elements.push(row);
        assert(self@.lww_elements =~= old(self)@.lww_elements.push(
            LwwRowView { event_id: event_id as nat, value: value@, unix_milliseconds },
        ));
        Ok(())
    }

    /// Stores one link from a stored event to the subject of a reference:
    /// a pointer goes to the links to events, bytes go to the links to
    /// outside content. Each call writes a row of its own. Fails, and
    /// stores nothing, with `UnsupportedReferenceKind` for a reserved
    /// reference, else with `RangeError` if the key type or the logical
    /// clock of a pointer does not fit the store, else with `StorageError`
    /// if no event has this id.
    pub fn insert_link(&mut self, event_id: EventId, reference: &Reference) -> (made: Result<
        (),
        StoreError,
    >)
        requires
            old(self).wf(),
        ensures
            final(self).wf(),
            match old(self)@.insert_link(event_id as nat, reference@) {
                Ok(after) => final(self)@ == after && made is Ok,
                Err(fault) => final(self)@ == old(self)@ && made == Err::<(), StoreError>(fault),
            },
    {
        match reference {
            Reference::Reserved { .. } => Err(StoreError::UnsupportedReferenceKind),
            Reference::Pointer(subject) => {
                if !check_pointer(subject) {
                    return Err(StoreError::RangeError);
                }
                if event_id >= self.events.len() {
                    return Err(StoreError::StorageError);
                }
                let row = EventLink { event_id, subject: subject.clone() };
                self.event_links.push(row);
                assert(self@.event_links =~= old(self)@.event_links.push(
                    EventLinkView { event_id: event_id as nat, subject: subject@ },
                ));
                Ok(())
            },
            Reference::Bytes(subject_bytes) => {
                if event_id >= self.events.len() {
                    return Err(StoreError::StorageError);
                }
                let row = BytesLink { event_id, subject_bytes: subject_bytes.clone() };
                self.byte_links.push(row);
                assert(self@.byte_links =~= old(self)@.byte_links.push(
                    BytesLinkView { event_id: event_id as nat, subject_bytes: subject_bytes@ },
                ));
                Ok(())
            },
        }
    }

    /// Records how many rows each relation holds.
    pub(crate) fn savepoint(&self) -> (mark: Savepoint)
        ensures
            mark.marks(self@),
    {
        Savepoint {
            events: self.events.len(),
            lww_elements: self.lww_elements.len(),
            event_links: self.event_links.len(),
            byte_links: self.byte_links.len(),
        }
    }

    /// Drops every row that was written since the savepoint was taken.
    pub(crate) fn rollback_to(&mut self, mark: &Savepoint, Ghost(then): Ghost<Relations>)
        requires
            mark.marks(then),
            then.is_prefix_of(old(self)@),
        ensures
            final(self)@ == then,
    {
        self.byte_links.truncate(mark.byte_links);
        self.event_links.truncate(mark.event_links);
        self.lww_elements.truncate(mark.lww_elements);
        self.events.truncate(mark.events);
        assert(self@.events =~= then.events);
        assert(self@.lww_elements =~= then.lww_elements);
        assert(self@.event_links =~= then.event_links);
        assert(self@.byte_links =~= then.byte_links);
    }
}

} // verus!
