use event_store::error::{IngestError, StoreError};
use event_store::model::{Event, LwwElement, Pointer, Process, PublicKey, Reference};
use event_store::store::{Store, NATIVE_MAX};

fn author(tag: u8) -> PublicKey {
    PublicKey { key_type: 1, key_bytes: vec![tag; 32] }
}

fn key_of(tag: u8, clock: u64) -> Pointer {
    Pointer { system: author(tag), process: Process { bytes: vec![1; 16] }, logical_clock: clock }
}

fn signed(tag: u8, clock: u64) -> Event {
    Event {
        system: author(tag),
        process: Process { bytes: vec![1; 16] },
        logical_clock: clock,
        content_type: 3,
        content: vec![clock as u8],
        signature: vec![0; 64],
        lww_element: Some(LwwElement { value: b"v".to_vec(), unix_milliseconds: clock }),
        references: vec![Reference::Bytes(b"topic".to_vec()), Reference::Pointer(key_of(9, 9))],
    }
}

fn rejected(reason: &str) -> Result<Event, String> {
    Err(reason.to_string())
}

/// A store that holds one batch of two events.
fn seeded() -> Store {
    let mut store = Store::new();
    assert_eq!(store.ingest_batch(&vec![Ok(signed(50, 1)), Ok(signed(50, 2))]), Ok(()));
    store
}

fn assert_as_seeded(store: &Store) {
    assert_eq!(store.event_count(), 2);
    assert_eq!(store.lww_element_count(), 2);
    assert_eq!(store.event_link_count(), 2);
    assert_eq!(store.byte_link_count(), 2);
}

#[test]
fn ingest_batch_stores_every_event_with_its_element_and_links() {
    let mut store = Store::new();
    let batch = vec![Ok(signed(1, 1)), Ok(signed(1, 2)), Ok(signed(2, 1))];
    assert_eq!(store.ingest_batch(&batch), Ok(()));
    assert_eq!(store.event_count(), 3);
    assert_eq!(store.lww_element_count(), 3);
    assert_eq!(store.event_link_count(), 3);
    assert_eq!(store.byte_link_count(), 3);
    assert_eq!(store.find_event(&key_of(1, 1)), Some(0));
    assert_eq!(store.find_event(&key_of(1, 2)), Some(1));
    assert_eq!(store.find_event(&key_of(2, 1)), Some(2));
    assert_eq!(store.lww_element(1).event_id, 1);
    assert_eq!(store.lww_element(1).unix_milliseconds, 2);
    assert_eq!(store.event_link(2).event_id, 2);
    assert_eq!(store.event_link(2).subject, key_of(9, 9));
    assert_eq!(store.byte_link(0).subject_bytes, b"topic".to_vec());
}

#[test]
fn ingest_batch_accepts_the_empty_batch() {
    let mut store = seeded();
    assert_eq!(store.ingest_batch(&vec![]), Ok(()));
    assert_as_seeded(&store);
}

#[test]
fn ingest_batch_writes_events_without_element_or_references() {
    let mut store = Store::new();
    let mut event = signed(1, 1);
    event.lww_element = None;
    event.references = vec![];
    assert_eq!(store.ingest_batch(&vec![Ok(event)]), Ok(()));
    assert_eq!(store.event_count(), 1);
    assert_eq!(store.lww_element_count(), 0);
    assert_eq!(store.event_link_count(), 0);
    assert_eq!(store.byte_link_count(), 0);
}

#[test]
fn rejected_event_leaves_nothing_of_the_batch_wherever_it_stands() {
    for k in 0..4 {
        let mut store = seeded();
        let mut batch: Vec<Result<Event, String>> = Vec::new();
        for position in 0..4 {
            if position == k {
                batch.push(rejected("bad signature"));
            } else {
                batch.push(Ok(signed(1, position as u64)));
            }
        }
        assert_eq!(
            store.ingest_batch(&batch),
            Err(IngestError::ValidationError { index: k, reason: "bad signature".to_string() })
        );
        assert_as_seeded(&store);
        for position in 0..4 {
            assert_eq!(store.find_event(&key_of(1, position)), None);
        }
    }
}

#[test]
fn first_fault_in_batch_order_is_reported() {
    let mut store = seeded();
    let batch = vec![Ok(signed(1, 1)), rejected("first"), rejected("second"), Ok(signed(50, 1))];
    assert_eq!(
        store.ingest_batch(&batch),
        Err(IngestError::ValidationError { index: 1, reason: "first".to_string() })
    );
    let batch = vec![Ok(signed(1, 1)), Ok(signed(50, 1)), rejected("late")];
    assert_eq!(store.ingest_batch(&batch), Err(IngestError::DuplicateKey));
    assert_as_seeded(&store);
}

#[test]
fn stored_key_refuses_the_whole_batch() {
    let mut store = seeded();
    let batch = vec![Ok(signed(1, 1)), Ok(signed(1, 2)), Ok(signed(50, 2))];
    assert_eq!(store.ingest_batch(&batch), Err(IngestError::DuplicateKey));
    assert_as_seeded(&store);
    assert_eq!(store.find_event(&key_of(1, 1)), None);
}

#[test]
fn key_twice_in_one_batch_refuses_the_whole_batch() {
    let mut store = seeded();
    let batch = vec![Ok(signed(1, 1)), Ok(signed(1, 1))];
    assert_eq!(store.ingest_batch(&batch), Err(IngestError::DuplicateKey));
    assert_as_seeded(&store);
}

#[test]
fn two_batches_with_a_shared_key_are_never_both_accepted() {
    let first = vec![Ok(signed(1, 1)), Ok(signed(1, 2))];
    let second = vec![Ok(signed(2, 1)), Ok(signed(1, 2)), Ok(signed(2, 2))];

    let mut store = Store::new();
    assert_eq!(store.ingest_batch(&first), Ok(()));
    assert_eq!(store.ingest_batch(&second), Err(IngestError::DuplicateKey));
    assert_eq!(store.event_count(), 2);
    assert_eq!(store.find_event(&key_of(2, 1)), None);

    let mut store = Store::new();
    assert_eq!(store.ingest_batch(&second), Ok(()));
    assert_eq!(store.ingest_batch(&first), Err(IngestError::DuplicateKey));
    assert_eq!(store.event_count(), 3);
    assert_eq!(store.find_event(&key_of(1, 1)), None);
}

#[test]
fn batch_refused_for_a_duplicate_is_refused_again_on_retry() {
    let mut store = Store::new();
    let batch = vec![Ok(signed(1, 1))];
    assert_eq!(store.ingest_batch(&batch), Ok(()));
    assert_eq!(store.ingest_batch(&batch), Err(IngestError::DuplicateKey));
    assert_eq!(store.ingest_batch(&batch), Err(IngestError::DuplicateKey));
    assert_eq!(store.event_count(), 1);
}

#[test]
fn reserved_reference_refuses_the_whole_batch() {
    let mut store = seeded();
    let mut event = signed(1, 2);
    event.references.push(Reference::Reserved { kind: 1 });
    let batch = vec![Ok(signed(1, 1)), Ok(event)];
    assert_eq!(store.ingest_batch(&batch), Err(IngestError::UnsupportedReferenceKind));
    assert_as_seeded(&store);
}

#[test]
fn numbers_beyond_the_store_width_refuse_the_whole_batch() {
    let mut store = seeded();
    let batch = vec![Ok(signed(1, 1)), Ok(signed(1, NATIVE_MAX + 1))];
    assert_eq!(store.ingest_batch(&batch), Err(IngestError::RangeError));
    assert_as_seeded(&store);

    let mut late = signed(1, 2);
    late.lww_element = Some(LwwElement { value: vec![], unix_milliseconds: u64::MAX });
    assert_eq!(store.ingest_batch(&vec![Ok(signed(1, 1)), Ok(late)]), Err(IngestError::RangeError));
    assert_as_seeded(&store);

    let mut far = signed(1, 2);
    far.references = vec![Reference::Bytes(vec![]), Reference::Pointer(key_of(3, NATIVE_MAX + 1))];
    assert_eq!(store.ingest_batch(&vec![Ok(signed(1, 1)), Ok(far)]), Err(IngestError::RangeError));
    assert_as_seeded(&store);
}

#[test]
fn refused_batch_can_be_ingested_once_mended() {
    let mut store = seeded();
    let batch = vec![Ok(signed(1, 1)), rejected("bad")];
    assert!(store.ingest_batch(&batch).is_err());
    let batch = vec![Ok(signed(1, 1)), Ok(signed(1, 2))];
    assert_eq!(store.ingest_batch(&batch), Ok(()));
    assert_eq!(store.event_count(), 4);
    assert_eq!(store.find_event(&key_of(1, 1)), Some(2));
}

#[test]
fn storage_fault_becomes_the_ingestion_fault_of_the_same_name() {
    assert_eq!(IngestError::from_store(StoreError::DuplicateKey), IngestError::DuplicateKey);
    assert_eq!(IngestError::from_store(StoreError::StorageError), IngestError::StorageError);
    assert_eq!(
        IngestError::from_store(StoreError::UnsupportedReferenceKind),
        IngestError::UnsupportedReferenceKind
    );
    assert_eq!(IngestError::from_store(StoreError::RangeError), IngestError::RangeError);
    let fault = IngestError::ValidationError { index: 3, reason: "why".to_string() };
    assert_eq!(fault.clone(), fault);
}
