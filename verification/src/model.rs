//! Value types of the protocol: identities, processes, references, events.

use vstd::prelude::*;
use vstd::std_specs::cmp::PartialEqSpecImpl;

use crate::error::StoreError;

verus! {

/// Key type tag of Ed25519 public keys.
pub const KEY_TYPE_ED25519: u64 = 1;

/// Decides whether two byte strings hold the same bytes.
pub fn bytes_equal(a: &Vec<u8>, b: &Vec<u8>) -> (same: bool)
    ensures
        same == (a@ == b@),
{
    if a.len() != b.len() {
        return false;
    }
    let mut i: usize = 0;
    while i < a.len()
        invariant
            a.len() == b.len(),
            i <= a.len(),
            forall|j: int| 0 <= j < i ==> a@[j] == b@[j],
        decreases a.len() - i,
    {
        if a[i] != b[i] {
            return false;
        }
        i += 1;
    }
    assert(a@ =~= b@);
    true
}

/// A system identity: a public key together with the tag of its scheme.
#[derive(Debug)]
pub struct PublicKey {
    pub key_type: u64,
    pub key_bytes: Vec<u8>,
}

/// Mathematical value of a [`PublicKey`].
pub struct PublicKeyView {
    pub key_type: u64,
    pub key_bytes: Seq<u8>,
}

impl View for PublicKey {
    type V = PublicKeyView;

    open spec fn view(&self) -> PublicKeyView {
        PublicKeyView { key_type: self.key_type, key_bytes: self.key_bytes@ }
    }
}

impl Clone for PublicKey {
    fn clone(&self) -> (copy: Self)
        ensures
            copy@ == self@,
    {
        PublicKey { key_type: self.key_type, key_bytes: self.key_bytes.clone() }
    }
}

impl PartialEq for PublicKey {
    fn eq(&self, other: &Self) -> (same: bool) {
        self.key_type == other.key_type && bytes_equal(&self.key_bytes, &other.key_bytes)
    }
}

impl Eq for PublicKey {

}

impl PartialEqSpecImpl for PublicKey {
    open spec fn obeys_eq_spec() -> bool {
        true
    }

    open spec fn eq_spec(&self, other: &Self) -> bool {
        self@ == other@
    }
}

/// A writer session of one identity, with a logical clock of its own.
#[derive(Debug)]
pub struct Process {
    pub bytes: Vec<u8>,
}

impl View for Process {
    type V = Seq<u8>;

    open spec fn view(&self) -> Seq<u8> {
        self.bytes@
    }
}

impl Clone for Process {
    fn clone(&self) -> (copy: Self)
        ensures
            copy@ == self@,
    {
        Process { bytes: self.bytes.clone() }
    }
}

impl PartialEq for Process {
    fn eq(&self, other: &Self) -> (same: bool) {
        bytes_equal(&self.bytes, &other.bytes)
    }
}

impl Eq for Process {

}

impl PartialEqSpecImpl for Process {
    open spec fn obeys_eq_spec() -> bool {
        true
    }

    open spec fn eq_spec(&self, other: &Self) -> bool {
        self@ == other@
    }
}

/// The key of one event: the position `logical_clock` in the log that
/// `process` writes on behalf of `system`.
#[derive(Debug)]
pub struct Pointer {
    pub system: PublicKey,
    pub process: Process,
    pub logical_clock: u64,
}

/// Mathematical value of a [`Pointer`].
pub struct PointerView {
    pub system: PublicKeyView,
    pub process: Seq<u8>,
    pub logical_clock: u64,
}

impl View for Pointer {
    type V = PointerView;

    open spec fn view(&self) -> PointerView {
        PointerView {
            system: self.system@,
            process: self.process@,
            logical_clock: self.logical_clock,
        }
    }
}

impl Clone for Pointer {
    fn clone(&self) -> (copy: Self)
        ensures
            copy@ == self@,
    {
        Pointer {
            system: self.system.clone(),
            process: self.process.clone(),
            logical_clock: self.logical_clock,
        }
    }
}

impl PartialEq for Pointer {
    fn eq(&self, other: &Self) -> (same: bool) {
        self.logical_clock == other.logical_clock && self.system == other.system
            && self.process == other.process
    }
}

impl Eq for Pointer {

}

impl PartialEqSpecImpl for Pointer {
    open spec fn obeys_eq_spec() -> bool {
        true
    }

    open spec fn eq_spec(&self, other: &Self) -> bool {
        self@ == other@
    }
}

/// Kind tag of references that name an identity. Reserved: the store does
/// not resolve such references.
pub const REFERENCE_KIND_SYSTEM: u64 = 1;

/// Kind tag of references that name an event.
pub const REFERENCE_KIND_POINTER: u64 = 2;

/// Kind tag of references that name content outside the store.
pub const REFERENCE_KIND_BYTES: u64 = 3;

/// What an event refers to.
#[derive(Debug)]
pub enum Reference {
    /// Another event, named by its key.
    Pointer(Pointer),
    /// Content that is not an event, named by an opaque byte string.
    Bytes(Vec<u8>),
    /// A reference of a kind that the store does not resolve; `kind` is its
    /// tag. Every operation that meets one fails with
    /// `UnsupportedReferenceKind`.
    Reserved { kind: u64 },
}

/// Mathematical value of a [`Reference`].
pub enum ReferenceView {
    Pointer(PointerView),
    Bytes(Seq<u8>),
    Reserved { kind: u64 },
}

impl View for Reference {
    type V = ReferenceView;

    open spec fn view(&self) -> ReferenceView {
        match self {
            Reference::Pointer(pointer) => ReferenceView::Pointer(pointer@),
            Reference::Bytes(bytes) => ReferenceView::Bytes(bytes@),
            Reference::Reserved { kind } => ReferenceView::Reserved { kind: *kind },
        }
    }
}

impl Clone for Reference {
    fn clone(&self) -> (copy: Self)
        ensures
            copy@ == self@,
    {
        match self {
            Reference::Pointer(pointer) => Reference::Pointer(pointer.clone()),
            Reference::Bytes(bytes) => Reference::Bytes(bytes.clone()),
            Reference::Reserved { kind } => Reference::Reserved { kind: *kind },
        }
    }
}

/// Payload of a reference as it was decoded.
#[derive(Debug)]
pub enum RawPayload {
    Pointer(Pointer),
    Bytes(Vec<u8>),
}

/// A reference as it arrives from outside: the kind tag that the sender
/// wrote, and the payload that came with it.
#[derive(Debug)]
pub struct RawReference {
    pub kind: u64,
    pub payload: RawPayload,
}

/// The reference that a raw reference stands for, if its kind is one that
/// the store resolves and its payload is of that kind.
pub open spec fn reference_of_raw(kind: u64, payload: RawPayload) -> Option<ReferenceView> {
    match payload {
        RawPayload::Pointer(pointer) => if kind == REFERENCE_KIND_POINTER {
            Some(ReferenceView::Pointer(pointer@))
        } else {
            None
        },
        RawPayload::Bytes(bytes) => if kind == REFERENCE_KIND_BYTES {
            Some(ReferenceView::Bytes(bytes@))
        } else {
            None
        },
    }
}

impl Reference {
    /// Builds a reference from its outside form. Fails with
    /// `UnsupportedReferenceKind` unless the kind is pointer or bytes and
    /// the payload is of that kind; no other kind is defaulted to one of
    /// these.
    pub fn from_raw(raw: RawReference) -> (made: Result<Reference, StoreError>)
        ensures
            match reference_of_raw(raw.kind, raw.payload) {
                Some(reference) => made matches Ok(r) && r@ == reference,
                None => made == Err::<Reference, StoreError>(
                    StoreError::UnsupportedReferenceKind,
                ),
            },
    {
        match raw.payload {
            RawPayload::Pointer(pointer) => {
                if raw.kind == REFERENCE_KIND_POINTER {
                    Ok(Reference::Pointer(pointer))
                } else {
                    Err(StoreError::UnsupportedReferenceKind)
                }
            },
            RawPayload::Bytes(bytes) => {
                if raw.kind == REFERENCE_KIND_BYTES {
                    Ok(Reference::Bytes(bytes))
                } else {
                    Err(StoreError::UnsupportedReferenceKind)
                }
            },
        }
    }
}

/// A last-write-wins element: a value and the time at which its writer
/// says it was set.
#[derive(Debug)]
pub struct LwwElement {
    pub value: Vec<u8>,
    pub unix_milliseconds: u64,
}

/// Mathematical value of a [`LwwElement`].
pub struct LwwElementView {
    pub value: Seq<u8>,
    pub unix_milliseconds: u64,
}

impl View for LwwElement {
    type V = LwwElementView;

    open spec fn view(&self) -> LwwElementView {
        LwwElementView { value: self.value@, unix_milliseconds: self.unix_milliseconds }
    }
}

impl Clone for LwwElement {
    fn clone(&self) -> (copy: Self)
        ensures
            copy@ == self@,
    {
        LwwElement { value: self.value.clone(), unix_milliseconds: self.unix_milliseconds }
    }
}

/// An event whose proof of authenticity has been checked.
#[derive(Debug)]
pub struct Event {
    pub system: PublicKey,
    pub process: Process,
    pub logical_clock: u64,
    pub content_type: u64,
    pub content: Vec<u8>,
    pub signature: Vec<u8>,
    pub lww_element: Option<LwwElement>,
    pub references: Vec<Reference>,
}

/// Mathematical value of an [`Event`].
pub struct EventView {
    pub system: PublicKeyView,
    pub process: Seq<u8>,
    pub logical_clock: u64,
    pub content_type: u64,
    pub content: Seq<u8>,
    pub signature: Seq<u8>,
    pub lww_element: Option<LwwElementView>,
    pub references: Seq<ReferenceView>,
}

impl View for Event {
    type V = EventView;

    open spec fn view(&self) -> EventView {
        EventView {
            system: self.system@,
            process: self.process@,
            logical_clock: self.logical_clock,
            content_type: self.content_type,
            content: self.content@,
            signature: self.signature@,
            lww_element: match self.lww_element {
                Some(element) => Some(element@),
                None => None,
            },
            references: self.references@.map_values(|r: Reference| r@),
        }
    }
}

impl Clone for Event {
    fn clone(&self) -> (copy: Self)
        ensures
            copy@ == self@,
    {
        let mut references: Vec<Reference> = Vec::new();
        let mut i: usize = 0;
        while i < self.references.len()
            invariant
                i <= self.references.len(),
                references.len() == i,
                forall|k: int| 0 <= k < i ==> references[k]@ == self.references[k]@,
            decreases self.references.len() - i,
        {
            references.push(self.references[i].clone());
            i += 1;
        }
        let lww_element = match &self.lww_element {
            Some(element) => Some(element.clone()),
            None => None,
        };
        let copy = Event {
            system: self.system.clone(),
            process: self.process.clone(),
            logical_clock: self.logical_clock,
            content_type: self.content_type,
            content: self.content.clone(),
            signature: self.signature.clone(),
            lww_element,
            references,
        };
        assert(copy@.references =~= self@.references);
        copy
    }
}

impl EventView {
    /// The key under which the event is stored.
    pub open spec fn key(self) -> PointerView {
        PointerView {
            system: self.system,
            process: self.process,
            logical_clock: self.logical_clock,
        }
    }
}

} // verus!
