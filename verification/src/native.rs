//! What is handed to a storage engine that keeps integers in signed
//! 64-bit columns, and what is taken back from it.
//!
//! A caller that keeps the relations in such an engine converts each row
//! and each query here before it sends them, and the count that comes
//! back. A number that does not fit is refused with `RangeError`, on the
//! same inputs on which the store in memory refuses it.

use vstd::prelude::*;

use crate::error::StoreError;
use crate::model::{Event, EventView, LwwElement, LwwElementView, Reference, ReferenceView};
use crate::resolve::query_fault;
use crate::store::{check_native, check_pointer, event_fits, fits_native, pointer_fits, Relations};

verus! {

/// The column value of a number, or `RangeError` if it does not fit.
pub open spec fn native_of(x: u64) -> Result<i64, StoreError> {
    if fits_native(x) {
        Ok(x as i64)
    } else {
        Err(StoreError::RangeError)
    }
}

/// Converts a number to the width of a column. Fails with `RangeError` if
/// it does not fit.
pub fn to_native(x: u64) -> (column: Result<i64, StoreError>)
    ensures
        column == native_of(x),
{
    if check_native(x) {
        Ok(x as i64)
    } else {
        Err(StoreError::RangeError)
    }
}

/// The count that a column value stands for, or `RangeError` if it is
/// negative.
pub open spec fn count_of(column: i64) -> Result<u64, StoreError> {
    if column >= 0 {
        Ok(column as u64)
    } else {
        Err(StoreError::RangeError)
    }
}

/// Converts the count that the engine returned. Fails with `RangeError`
/// if it is negative.
pub fn count_of_native(column: i64) -> (count: Result<u64, StoreError>)
    ensures
        count == count_of(column),
{
    if column >= 0 {
        Ok(column as u64)
    } else {
        Err(StoreError::RangeError)
    }
}

/// Row of the events relation, in column values.
#[derive(Debug, PartialEq, Eq)]
pub struct NativeEvent {
    pub system_key_type: i64,
    pub system_key: Vec<u8>,
    pub process: Vec<u8>,
    pub logical_clock: i64,
    pub content_type: i64,
    pub content: Vec<u8>,
    pub signature: Vec<u8>,
}

/// Mathematical value of a [`NativeEvent`].
pub struct NativeEventView {
    pub system_key_type: i64,
    pub system_key: Seq<u8>,
    pub process: Seq<u8>,
    pub logical_clock: i64,
    pub content_type: i64,
    pub content: Seq<u8>,
    pub signature: Seq<u8>,
}

impl View for NativeEvent {
    type V = NativeEventView;

    open spec fn view(&self) -> NativeEventView {
        NativeEventView {
            system_key_type: self.system_key_type,
            system_key: self.system_key@,
            process: self.process@,
            logical_clock: self.logical_clock,
            content_type: self.content_type,
            content: self.content@,
            signature: self.signature@,
        }
    }
}

/// The row of an event in column values, or `RangeError` if its key type,
/// its logical clock or its content type does not fit.
pub open spec fn event_plan(event: EventView) -> Result<NativeEventView, StoreError> {
    if event_fits(event) {
        Ok(
            NativeEventView {
                system_key_type: event.system.key_type as i64,
                system_key: event.system.key_bytes,
                process: event.process,
                logical_clock: event.logical_clock as i64,
                content_type: event.content_type as i64,
                content: event.content,
                signature: event.signature,
            },
        )
    } else {
        Err(StoreError::RangeError)
    }
}

/// Converts the row of an event. Fails with `RangeError` if the key type,
/// the logical clock or the content type does not fit a column.
pub fn plan_event(event: &Event) -> (plan: Result<NativeEvent, StoreError>)
    ensures
        match event_plan(event@) {
            Ok(row) => plan matches Ok(made) && made@ == row,
            Err(fault) => plan == Err::<NativeEvent, StoreError>(fault),
        },
{
    if !(check_native(event.system.key_type) && check_native(event.logical_clock)
        && check_native(event.content_type)) {
        return Err(StoreError::RangeError);
    }
    Ok(
        NativeEvent {
            system_key_type: event.system.key_type as i64,
            system_key: event.system.key_bytes.clone(),
            process: event.process.bytes.clone(),
            logical_clock: event.logical_clock as i64,
            content_type: event.content_type as i64,
            content: event.content.clone(),
            signature: event.signature.clone(),
        },
    )
}

/// Row of the relation of last-write-wins elements, in column values,
/// without the id of its event.
#[derive(Debug, PartialEq, Eq)]
pub struct NativeLww {
    pub value: Vec<u8>,
    pub unix_milliseconds: i64,
}

/// Mathematical value of a [`NativeLww`].
pub struct NativeLwwView {
    pub value: Seq<u8>,
    pub unix_milliseconds: i64,
}

impl View for NativeLww {
    type V = NativeLwwView;

    open spec fn view(&self) -> NativeLwwView {
        NativeLwwView { value: self.value@, unix_milliseconds: self.unix_milliseconds }
    }
}

/// The row of an element in column values, or `RangeError` if its time
/// does not fit.
pub open spec fn lww_plan(element: LwwElementView) -> Result<NativeLwwView, StoreError> {
    if fits_native(element.unix_milliseconds) {
        Ok(
            NativeLwwView {
                value: element.value,
                unix_milliseconds: element.unix_milliseconds as i64,
            },
        )
    } else {
        Err(StoreError::RangeError)
    }
}

/// Converts the row of a last-write-wins element. Fails with `RangeError`
/// if the time does not fit a column.
pub fn plan_lww_element(element: &LwwElement) -> (plan: Result<NativeLww, StoreError>)
    ensures
        match lww_plan(element@) {
            Ok(row) => plan matches Ok(made) && made@ == row,
            Err(fault) => plan == Err::<NativeLww, StoreError>(fault),
        },
{
    if !check_native(element.unix_milliseconds) {
        return Err(StoreError::RangeError);
    }
    Ok(
        NativeLww {
            value: element.value.clone(),
            unix_milliseconds: element.unix_milliseconds as i64,
        },
    )
}

/// Row of one of the two relations of links, in column values, without
/// the id of its event.
#[derive(Debug, PartialEq, Eq)]
pub enum NativeLink {
    /// Row of the links to events.
    Event {
        subject_system_key_type: i64,
        subject_system_key: Vec<u8>,
        subject_process: Vec<u8>,
        subject_logical_clock: i64,
    },
    /// Row of the links to outside content.
    Bytes { subject_bytes: Vec<u8> },
}

/// Mathematical value of a [`NativeLink`].
pub enum NativeLinkView {
    Event {
        subject_system_key_type: i64,
        subject_system_key: Seq<u8>,
        subject_process: Seq<u8>,
        subject_logical_clock: i64,
    },
    Bytes { subject_bytes: Seq<u8> },
}

impl View for NativeLink {
    type V = NativeLinkView;

    open spec fn view(&self) -> NativeLinkView {
        match self {
            NativeLink::Event {
                subject_system_key_type,
                subject_system_key,
                subject_process,
                subject_logical_clock,
            } => NativeLinkView::Event {
                subject_system_key_type: *subject_system_key_type,
                subject_system_key: subject_system_key@,
                subject_process: subject_process@,
                subject_logical_clock: *subject_logical_clock,
            },
            NativeLink::Bytes { subject_bytes } => NativeLinkView::Bytes {
                subject_bytes: subject_bytes@,
            },
        }
    }
}

/// The row of a link in column values, and by its variant the relation it
/// belongs to; or `UnsupportedReferenceKind` for a reserved reference, or
/// `RangeError` if a number of a pointer does not fit.
pub open spec fn link_plan(reference: ReferenceView) -> Result<NativeLinkView, StoreError> {
    match reference {
        ReferenceView::Reserved { .. } => Err(StoreError::UnsupportedReferenceKind),
        ReferenceView::Pointer(subject) => if pointer_fits(subject) {
            Ok(
                NativeLinkView::Event {
                    subject_system_key_type: subject.system.key_type as i64,
                    subject_system_key: subject.system.key_bytes,
                    subject_process: subject.process,
                    subject_logical_clock: subject.logical_clock as i64,
                },
            )
        } else {
            Err(StoreError::RangeError)
        },
        ReferenceView::Bytes(subject_bytes) => Ok(NativeLinkView::Bytes { subject_bytes }),
    }
}

/// Converts the row of a link. Fails with `UnsupportedReferenceKind` for
/// a reserved reference, else with `RangeError` if the key type or the
/// logical clock of a pointer does not fit a column.
pub fn plan_link(reference: &Reference) -> (plan: Result<NativeLink, StoreError>)
    ensures
        match link_plan(reference@) {
            Ok(row) => plan matches Ok(made) && made@ == row,
            Err(fault) => plan == Err::<NativeLink, StoreError>(fault),
        },
{
    match reference {
        Reference::Reserved { .. } => Err(StoreError::UnsupportedReferenceKind),
        Reference::Pointer(subject) => {
            if !check_pointer(subject) {
                return Err(StoreError::RangeError);
            }
            Ok(
                NativeLink::Event {
                    subject_system_key_type: subject.system.key_type as i64,
                    subject_system_key: subject.system.key_bytes.clone(),
                    subject_process: subject.process.bytes.clone(),
                    subject_logical_clock: subject.logical_clock as i64,
                },
            )
        },
        Reference::Bytes(subject_bytes) => Ok(
            NativeLink::Bytes { subject_bytes: subject_bytes.clone() },
        ),
    }
}

/// The parameters of a count of matching latest claims, in column
/// values. The variant says in which relation of links the subject is
/// looked up.
#[derive(Debug, PartialEq, Eq)]
pub enum NativeQuery {
    /// The subject is an event: it is looked up among the links to events.
    Pointer {
        subject_system_key_type: i64,
        subject_system_key: Vec<u8>,
        subject_process: Vec<u8>,
        subject_logical_clock: i64,
        value: Vec<u8>,
        content_type: Option<i64>,
    },
    /// The subject is outside content: it is looked up among the links to
    /// outside content.
    Bytes { subject_bytes: Vec<u8>, value: Vec<u8>, content_type: Option<i64> },
}

/// Mathematical value of a [`NativeQuery`].
pub enum NativeQueryView {
    Pointer {
        subject_system_key_type: i64,
        subject_system_key: Seq<u8>,
        subject_process: Seq<u8>,
        subject_logical_clock: i64,
        value: Seq<u8>,
        content_type: Option<i64>,
    },
    Bytes { subject_bytes: Seq<u8>, value: Seq<u8>, content_type: Option<i64> },
}

impl View for NativeQuery {
    type V = NativeQueryView;

    open spec fn view(&self) -> NativeQueryView {
        match self {
            NativeQuery::Pointer {
                subject_system_key_type,
                subject_system_key,
                subject_process,
                subject_logical_clock,
                value,
                content_type,
            } => NativeQueryView::Pointer {
                subject_system_key_type: *subject_system_key_type,
                subject_system_key: subject_system_key@,
                subject_process: subject_process@,
                subject_logical_clock: *subject_logical_clock,
                value: value@,
                content_type: *content_type,
            },
            NativeQuery::Bytes { subject_bytes, value, content_type } => NativeQueryView::Bytes {
                subject_bytes: subject_bytes@,
                value: value@,
                content_type: *content_type,
            },
        }
    }
}

/// The type filter in column values.
pub open spec fn native_filter(type_filter: Option<u64>) -> Option<i64> {
    match type_filter {
        Some(content_type) => Some(content_type as i64),
        None => None,
    }
}

/// The parameters of a query in column values, or the fault for which the
/// query is refused.
pub open spec fn query_plan(
    subject: ReferenceView,
    target_value: Seq<u8>,
    type_filter: Option<u64>,
) -> Result<NativeQueryView, StoreError> {
    match query_fault(subject, type_filter) {
        Some(fault) => Err(fault),
        None => match subject {
            ReferenceView::Pointer(pointer) => Ok(
                NativeQueryView::Pointer {
                    subject_system_key_type: pointer.system.key_type as i64,
                    subject_system_key: pointer.system.key_bytes,
                    subject_process: pointer.process,
                    subject_logical_clock: pointer.logical_clock as i64,
                    value: target_value,
                    content_type: native_filter(type_filter),
                },
            ),
            ReferenceView::Bytes(subject_bytes) => Ok(
                NativeQueryView::Bytes {
                    subject_bytes,
                    value: target_value,
                    content_type: native_filter(type_filter),
                },
            ),
            ReferenceView::Reserved { .. } => Err(StoreError::UnsupportedReferenceKind),
        },
    }
}

/// Converts the parameters of a count of matching latest claims. Fails
/// with `UnsupportedReferenceKind` for a reserved subject, else with
/// `RangeError` if the key type or the logical clock of a pointer
/// subject, or the type filter, does not fit a column: on the inputs on
/// which the store in memory refuses the query, and with the same fault.
pub fn plan_query(subject: &Reference, target_value: &Vec<u8>, type_filter: Option<u64>) -> (plan:
    Result<NativeQuery, StoreError>)
    ensures
        match query_plan(subject@, target_value@, type_filter) {
            Ok(query) => plan matches Ok(made) && made@ == query,
            Err(fault) => plan == Err::<NativeQuery, StoreError>(fault),
        },
{
    match subject {
        Reference::Reserved { .. } => Err(StoreError::UnsupportedReferenceKind),
        Reference::Pointer(pointer) => {
            if !check_pointer(pointer) {
                return Err(StoreError::RangeError);
            }
            let content_type = match type_filter {
                Some(wanted) => match to_native(wanted) {
                    Ok(column) => Some(column),
                    Err(fault) => {
                        return Err(fault);
                    },
                },
                None => None,
            };
            Ok(
                NativeQuery::Pointer {
                    subject_system_key_type: pointer.system.key_type as i64,
                    subject_system_key: pointer.system.key_bytes.clone(),
                    subject_process: pointer.process.bytes.clone(),
                    subject_logical_clock: pointer.logical_clock as i64,
                    value: target_value.clone(),
                    content_type,
                },
            )
        },
        Reference::Bytes(subject_bytes) => {
            let content_type = match type_filter {
                Some(wanted) => match to_native(wanted) {
                    Ok(column) => Some(column),
                    Err(fault) => {
                        return Err(fault);
                    },
                },
                None => None,
            };
            Ok(
                NativeQuery::Bytes {
                    subject_bytes: subject_bytes.clone(),
                    value: target_value.clone(),
                    content_type,
                },
            )
        },
    }
}

/// The store in memory refuses a row for its numbers or its kind on the
/// inputs on which the conversion to column values fails, and with the
/// same fault; and it refuses a query on the inputs on which the
/// conversion of the query fails, and with the same fault.
pub proof fn lemma_plans_agree_with_store(
    s: Relations,
    event: EventView,
    element: LwwElementView,
    reference: ReferenceView,
    target_value: Seq<u8>,
    type_filter: Option<u64>,
    event_id: nat,
)
    requires
        s.knows(event_id),
    ensures
        !s.has_key(event.key()) ==> (s.insert_event(event) is Ok <==> event_plan(event) is Ok),
        event_plan(event) matches Err(fault) ==> s.insert_event(event) == Err::<
            Relations,
            StoreError,
        >(fault),
        s.insert_lww_element(event_id, element.value, element.unix_milliseconds) is Ok
            <==> lww_plan(element) is Ok,
        lww_plan(element) matches Err(fault) ==> s.insert_lww_element(
            event_id,
            element.value,
            element.unix_milliseconds,
        ) == Err::<Relations, StoreError>(fault),
        s.insert_link(event_id, reference) is Ok <==> link_plan(reference) is Ok,
        link_plan(reference) matches Err(fault) ==> s.insert_link(event_id, reference) == Err::<
            Relations,
            StoreError,
        >(fault),
        s.count_matching_latest(reference, target_value, type_filter) is Ok <==> query_plan(
            reference,
            target_value,
            type_filter,
        ) is Ok,
        query_plan(reference, target_value, type_filter) matches Err(fault)
            ==> s.count_matching_latest(reference, target_value, type_filter) == Err::<
            nat,
            StoreError,
        >(fault),
{
}

} // verus!
