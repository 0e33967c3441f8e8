//! The faults that the store and the ingestion pipeline report.

use vstd::prelude::*;

verus! {

/// A fault of one storage operation or query.
#[derive(Debug, Clone, Copy, PartialEq, Eq, Structural)]
pub enum StoreError {
    /// An event with the same system, process and logical clock is stored.
    DuplicateKey,
    /// The storage engine could not carry out the operation.
    StorageError,
    /// A reference is of a kind that the store does not resolve.
    UnsupportedReferenceKind,
    /// A number does not fit the width in which the store keeps integers.
    RangeError,
}

/// Why a batch was not ingested. No part of such a batch is stored.
#[derive(Debug, PartialEq, Eq)]
pub enum IngestError {
    /// The batch could not be decoded; storage was not touched.
    DecodeError { reason: String },
    /// The event at `index` failed the check of its proof or structure.
    ValidationError { index: usize, reason: String },
    /// An event of the batch has the key of a stored event, or of an
    /// earlier event of the batch.
    DuplicateKey,
    /// The storage engine failed while the batch was written.
    StorageError,
    /// The storage engine failed to make the batch durable.
    CommitError,
    /// An event of the batch carries a reference of a reserved kind.
    UnsupportedReferenceKind,
    /// A number in the batch does not fit the store's integer width.
    RangeError,
}

/// Mathematical value of an [`IngestError`].
pub enum IngestErrorView {
    DecodeError { reason: Seq<char> },
    ValidationError { index: nat, reason: Seq<char> },
    DuplicateKey,
    StorageError,
    CommitError,
    UnsupportedReferenceKind,
    RangeError,
}

impl View for IngestError {
    type V = IngestErrorView;

    open spec fn view(&self) -> IngestErrorView {
        match self {
            IngestError::DecodeError { reason } => IngestErrorView::DecodeError {
                reason: reason@,
            },
            IngestError::ValidationError { index, reason } => IngestErrorView::ValidationError {
                index: *index as nat,
                reason: reason@,
            },
            IngestError::DuplicateKey => IngestErrorView::DuplicateKey,
            IngestError::StorageError => IngestErrorView::StorageError,
            IngestError::CommitError => IngestErrorView::CommitError,
            IngestError::UnsupportedReferenceKind => IngestErrorView::UnsupportedReferenceKind,
            IngestError::RangeError => IngestErrorView::RangeError,
        }
    }
}

impl Clone for IngestError {
    fn clone(&self) -> (copy: Self)
        ensures
            copy@ == self@,
    {
        match self {
            IngestError::DecodeError { reason } => IngestError::DecodeError {
                reason: reason.clone(),
            },
            IngestError::ValidationError { index, reason } => IngestError::ValidationError {
                index: *index,
                reason: reason.clone(),
            },
            IngestError::DuplicateKey => IngestError::DuplicateKey,
            IngestError::StorageError => IngestError::StorageError,
            IngestError::CommitError => IngestError::CommitError,
            IngestError::UnsupportedReferenceKind => IngestError::UnsupportedReferenceKind,
            IngestError::RangeError => IngestError::RangeError,
        }
    }
}

/// The ingestion fault that a storage fault becomes.
pub open spec fn ingest_fault(error: StoreError) -> IngestErrorView {
    match error {
        StoreError::DuplicateKey => IngestErrorView::DuplicateKey,
        StoreError::StorageError => IngestErrorView::StorageError,
        StoreError::UnsupportedReferenceKind => IngestErrorView::UnsupportedReferenceKind,
        StoreError::RangeError => IngestErrorView::RangeError,
    }
}

impl IngestError {
    /// Carries a storage fault over to the ingestion that met it.
    pub fn from_store(error: StoreError) -> (fault: IngestError)
        ensures
            fault@ == ingest_fault(error),
    {
        match error {
            StoreError::DuplicateKey => IngestError::DuplicateKey,
            StoreError::StorageError => IngestError::StorageError,
            StoreError::UnsupportedReferenceKind => IngestError::UnsupportedReferenceKind,
            StoreError::RangeError => IngestError::RangeError,
        }
    }
}

} // verus!
