use event_store::error::StoreError;
use event_store::model::{Event, LwwElement, Pointer, Process, PublicKey, Reference};
use event_store::store::Store;

fn identity(tag: u8) -> PublicKey {
    PublicKey { key_type: 1, key_bytes: vec![tag; 32] }
}

fn process(tag: u8) -> Process {
    Process { bytes: vec![tag; 16] }
}

fn pointer_subject() -> Reference {
    Reference::Pointer(Pointer { system: identity(200), process: process(200), logical_clock: 5 })
}

fn bytes_subject() -> Reference {
    Reference::Bytes(b"topic".to_vec())
}

fn bare_event(author: u8, writer: u8, clock: u64, content_type: u64) -> Event {
    Event {
        system: identity(author),
        process: process(writer),
        logical_clock: clock,
        content_type,
        content: vec![],
        signature: vec![0; 64],
        lww_element: None,
        references: vec![],
    }
}

/// Stores an event of `author` that claims `value` at `time` about `subject`.
fn claim(
    store: &mut Store,
    author: u8,
    clock: u64,
    content_type: u64,
    subject: &Reference,
    value: &[u8],
    time: u64,
) {
    let id = store.insert_event(&bare_event(author, 1, clock, content_type)).unwrap();
    store.insert_lww_element(id, &value.to_vec(), time).unwrap();
    store.insert_link(id, subject).unwrap();
}

#[test]
fn test_no_references() {
    let store = Store::new();
    let subject = Reference::Pointer(Pointer {
        system: identity(7),
        process: process(1),
        logical_clock: 5,
    });
    let result = store.count_matching_latest(&subject, &vec![], None);
    assert!(result == Ok(0));
}

#[test]
fn fresh_subject_counts_zero_for_any_target() {
    let mut store = Store::new();
    claim(&mut store, 1, 1, 3, &pointer_subject(), b"x", 1);
    let other = Reference::Pointer(Pointer {
        system: identity(200),
        process: process(200),
        logical_clock: 6,
    });
    assert_eq!(store.count_matching_latest(&other, &b"x".to_vec(), None), Ok(0));
    assert_eq!(store.count_matching_latest(&bytes_subject(), &b"x".to_vec(), None), Ok(0));
    assert_eq!(store.count_matching_latest(&other, &vec![], Some(3)), Ok(0));
}

#[test]
fn only_the_latest_claim_of_an_identity_counts() {
    let mut store = Store::new();
    let subject = pointer_subject();
    claim(&mut store, 1, 1, 3, &subject, b"x", 1);
    claim(&mut store, 1, 2, 3, &subject, b"y", 2);
    assert_eq!(store.count_matching_latest(&subject, &b"x".to_vec(), None), Ok(0));
    assert_eq!(store.count_matching_latest(&subject, &b"y".to_vec(), None), Ok(1));
}

#[test]
fn the_latest_claim_wins_whatever_the_order_of_storing() {
    let mut store = Store::new();
    let subject = bytes_subject();
    claim(&mut store, 1, 2, 3, &subject, b"y", 20);
    claim(&mut store, 1, 1, 3, &subject, b"x", 10);
    assert_eq!(store.count_matching_latest(&subject, &b"x".to_vec(), None), Ok(0));
    assert_eq!(store.count_matching_latest(&subject, &b"y".to_vec(), None), Ok(1));
}

#[test]
fn each_identity_counts_once_with_its_own_latest_claim() {
    let mut store = Store::new();
    let subject = pointer_subject();
    // identity 1: like, then unlike, then like
    claim(&mut store, 1, 1, 3, &subject, b"like", 10);
    claim(&mut store, 1, 2, 3, &subject, b"none", 20);
    claim(&mut store, 1, 3, 3, &subject, b"like", 30);
    // identity 2: like, then unlike
    claim(&mut store, 2, 1, 3, &subject, b"like", 15);
    claim(&mut store, 2, 2, 3, &subject, b"none", 25);
    // identity 3: like
    claim(&mut store, 3, 1, 3, &subject, b"like", 5);
    assert_eq!(store.count_matching_latest(&subject, &b"like".to_vec(), None), Ok(2));
    assert_eq!(store.count_matching_latest(&subject, &b"none".to_vec(), None), Ok(1));
    assert_eq!(store.count_matching_latest(&subject, &b"love".to_vec(), None), Ok(0));
}

#[test]
fn claims_with_equal_times_are_resolved_by_order_of_storing() {
    let mut store = Store::new();
    let subject = bytes_subject();
    claim(&mut store, 1, 1, 3, &subject, b"first", 7);
    claim(&mut store, 1, 2, 3, &subject, b"second", 7);
    assert_eq!(store.count_matching_latest(&subject, &b"first".to_vec(), None), Ok(0));
    assert_eq!(store.count_matching_latest(&subject, &b"second".to_vec(), None), Ok(1));
}

#[test]
fn identities_are_told_apart_by_system_not_by_process() {
    let mut store = Store::new();
    let subject = bytes_subject();
    let first = store.insert_event(&bare_event(1, 1, 1, 3)).unwrap();
    store.insert_lww_element(first, &b"x".to_vec(), 1).unwrap();
    store.insert_link(first, &subject).unwrap();
    let second = store.insert_event(&bare_event(1, 2, 1, 3)).unwrap();
    store.insert_lww_element(second, &b"x".to_vec(), 2).unwrap();
    store.insert_link(second, &subject).unwrap();
    assert_eq!(store.count_matching_latest(&subject, &b"x".to_vec(), None), Ok(1));
}

#[test]
fn identities_with_equal_bytes_and_other_key_types_are_distinct() {
    let mut store = Store::new();
    let subject = bytes_subject();
    let mut event = bare_event(1, 1, 1, 3);
    let first = store.insert_event(&event).unwrap();
    store.insert_lww_element(first, &b"x".to_vec(), 1).unwrap();
    store.insert_link(first, &subject).unwrap();
    event.system.key_type = 2;
    let second = store.insert_event(&event).unwrap();
    store.insert_lww_element(second, &b"x".to_vec(), 2).unwrap();
    store.insert_link(second, &subject).unwrap();
    assert_eq!(store.count_matching_latest(&subject, &b"x".to_vec(), None), Ok(2));
}

#[test]
fn type_filter_that_no_current_claim_passes_counts_zero() {
    let mut store = Store::new();
    let subject = pointer_subject();
    claim(&mut store, 1, 1, 3, &subject, b"x", 1);
    claim(&mut store, 2, 1, 3, &subject, b"x", 1);
    assert_eq!(store.count_matching_latest(&subject, &b"x".to_vec(), None), Ok(2));
    assert_eq!(store.count_matching_latest(&subject, &b"x".to_vec(), Some(3)), Ok(2));
    assert_eq!(store.count_matching_latest(&subject, &b"x".to_vec(), Some(4)), Ok(0));
}

#[test]
fn type_filter_is_applied_after_the_latest_claim_is_chosen() {
    let mut store = Store::new();
    let subject = pointer_subject();
    // The older claim has the filtered type, the newer one another type.
    claim(&mut store, 1, 1, 3, &subject, b"x", 1);
    claim(&mut store, 1, 2, 9, &subject, b"x", 2);
    claim(&mut store, 2, 1, 3, &subject, b"x", 1);
    assert_eq!(store.count_matching_latest(&subject, &b"x".to_vec(), None), Ok(2));
    assert_eq!(store.count_matching_latest(&subject, &b"x".to_vec(), Some(3)), Ok(1));
    assert_eq!(store.count_matching_latest(&subject, &b"x".to_vec(), Some(9)), Ok(1));
}

#[test]
fn bytes_and_pointer_subjects_never_cross_match() {
    let raw = vec![200u8; 32];
    let as_bytes = Reference::Bytes(raw.clone());
    let as_pointer = Reference::Pointer(Pointer {
        system: PublicKey { key_type: 1, key_bytes: raw.clone() },
        process: Process { bytes: raw.clone() },
        logical_clock: 0,
    });

    let mut linked_to_bytes = Store::new();
    claim(&mut linked_to_bytes, 1, 1, 3, &as_bytes, b"x", 1);
    assert_eq!(linked_to_bytes.count_matching_latest(&as_bytes, &b"x".to_vec(), None), Ok(1));
    assert_eq!(linked_to_bytes.count_matching_latest(&as_pointer, &b"x".to_vec(), None), Ok(0));

    let mut linked_to_pointer = Store::new();
    claim(&mut linked_to_pointer, 1, 1, 3, &as_pointer, b"x", 1);
    assert_eq!(linked_to_pointer.count_matching_latest(&as_pointer, &b"x".to_vec(), None), Ok(1));
    assert_eq!(linked_to_pointer.count_matching_latest(&as_bytes, &b"x".to_vec(), None), Ok(0));
}

#[test]
fn pointer_subjects_match_on_system_process_and_clock() {
    let mut store = Store::new();
    claim(&mut store, 1, 1, 3, &pointer_subject(), b"x", 1);
    let other_clock = Reference::Pointer(Pointer {
        system: identity(200),
        process: process(200),
        logical_clock: 6,
    });
    let other_process = Reference::Pointer(Pointer {
        system: identity(200),
        process: process(201),
        logical_clock: 5,
    });
    let other_system = Reference::Pointer(Pointer {
        system: identity(201),
        process: process(200),
        logical_clock: 5,
    });
    assert_eq!(store.count_matching_latest(&pointer_subject(), &b"x".to_vec(), None), Ok(1));
    assert_eq!(store.count_matching_latest(&other_clock, &b"x".to_vec(), None), Ok(0));
    assert_eq!(store.count_matching_latest(&other_process, &b"x".to_vec(), None), Ok(0));
    assert_eq!(store.count_matching_latest(&other_system, &b"x".to_vec(), None), Ok(0));
}

#[test]
fn asking_twice_gives_the_same_count() {
    let mut store = Store::new();
    let subject = bytes_subject();
    claim(&mut store, 1, 1, 3, &subject, b"x", 1);
    claim(&mut store, 2, 1, 3, &subject, b"x", 4);
    claim(&mut store, 2, 2, 3, &subject, b"y", 5);
    let first = store.count_matching_latest(&subject, &b"x".to_vec(), Some(3));
    let second = store.count_matching_latest(&subject, &b"x".to_vec(), Some(3));
    assert_eq!(first, Ok(1));
    assert_eq!(first, second);
    assert_eq!(store.event_count(), 3);
    assert_eq!(store.lww_element_count(), 3);
    assert_eq!(store.byte_link_count(), 3);
}

#[test]
fn event_without_element_makes_no_claim() {
    let mut store = Store::new();
    let subject = bytes_subject();
    let id = store.insert_event(&bare_event(1, 1, 1, 3)).unwrap();
    store.insert_link(id, &subject).unwrap();
    assert_eq!(store.count_matching_latest(&subject, &vec![], None), Ok(0));
}

#[test]
fn element_without_link_makes_no_claim() {
    let mut store = Store::new();
    let id = store.insert_event(&bare_event(1, 1, 1, 3)).unwrap();
    store.insert_lww_element(id, &b"x".to_vec(), 1).unwrap();
    assert_eq!(store.count_matching_latest(&bytes_subject(), &b"x".to_vec(), None), Ok(0));
}

#[test]
fn repeated_links_of_one_event_count_once() {
    let mut store = Store::new();
    let subject = bytes_subject();
    let id = store.insert_event(&bare_event(1, 1, 1, 3)).unwrap();
    store.insert_lww_element(id, &b"x".to_vec(), 1).unwrap();
    store.insert_link(id, &subject).unwrap();
    store.insert_link(id, &subject).unwrap();
    assert_eq!(store.count_matching_latest(&subject, &b"x".to_vec(), None), Ok(1));
}

#[test]
fn empty_target_value_is_a_value_like_any_other() {
    let mut store = Store::new();
    let subject = bytes_subject();
    claim(&mut store, 1, 1, 3, &subject, b"", 1);
    claim(&mut store, 2, 1, 3, &subject, b"x", 1);
    assert_eq!(store.count_matching_latest(&subject, &vec![], None), Ok(1));
}

#[test]
fn reserved_subject_is_refused() {
    let mut store = Store::new();
    claim(&mut store, 1, 1, 3, &bytes_subject(), b"x", 1);
    let subject = Reference::Reserved { kind: 1 };
    assert_eq!(
        store.count_matching_latest(&subject, &b"x".to_vec(), None),
        Err(StoreError::UnsupportedReferenceKind)
    );
    assert_eq!(
        store.count_matching_latest(&subject, &b"x".to_vec(), Some(u64::MAX)),
        Err(StoreError::UnsupportedReferenceKind)
    );
}

#[test]
fn numbers_beyond_the_store_width_are_refused() {
    let store = Store::new();
    let limit = i64::MAX as u64;
    let clock_at_limit = Reference::Pointer(Pointer {
        system: identity(1),
        process: process(1),
        logical_clock: limit,
    });
    let clock_beyond = Reference::Pointer(Pointer {
        system: identity(1),
        process: process(1),
        logical_clock: limit + 1,
    });
    let key_type_beyond = Reference::Pointer(Pointer {
        system: PublicKey { key_type: u64::MAX, key_bytes: vec![] },
        process: process(1),
        logical_clock: 0,
    });
    assert_eq!(store.count_matching_latest(&clock_at_limit, &vec![], Some(limit)), Ok(0));
    assert_eq!(
        store.count_matching_latest(&clock_beyond, &vec![], None),
        Err(StoreError::RangeError)
    );
    assert_eq!(
        store.count_matching_latest(&key_type_beyond, &vec![], None),
        Err(StoreError::RangeError)
    );
    assert_eq!(
        store.count_matching_latest(&clock_at_limit, &vec![], Some(limit + 1)),
        Err(StoreError::RangeError)
    );
    assert_eq!(
        store.count_matching_latest(&bytes_subject(), &vec![], Some(limit + 1)),
        Err(StoreError::RangeError)
    );
}

#[test]
fn claims_from_an_ingested_batch_are_counted() {
    let mut store = Store::new();
    let subject = bytes_subject();
    let mut first = bare_event(1, 1, 1, 3);
    first.lww_element = Some(LwwElement { value: b"x".to_vec(), unix_milliseconds: 1 });
    first.references = vec![subject.clone()];
    let mut second = bare_event(1, 1, 2, 3);
    second.lww_element = Some(LwwElement { value: b"y".to_vec(), unix_milliseconds: 2 });
    second.references = vec![subject.clone(), pointer_subject()];
    assert_eq!(store.ingest_batch(&vec![Ok(first), Ok(second)]), Ok(()));
    assert_eq!(store.count_matching_latest(&subject, &b"x".to_vec(), None), Ok(0));
    assert_eq!(store.count_matching_latest(&subject, &b"y".to_vec(), None), Ok(1));
    assert_eq!(store.count_matching_latest(&pointer_subject(), &b"y".to_vec(), None), Ok(1));
}
