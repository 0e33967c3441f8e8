//! Last-write-wins resolution: how many identities currently assert a
//! value about a subject.
//!
//! A *claim* about a subject is a last-write-wins element whose event has a
//! link to the subject. Pointer subjects are looked up among the links to
//! events, bytes subjects among the links to outside content, and never the
//! other way round. The claims are grouped by the identity that wrote their
//! events, whatever the process. The *current claim* of an identity is its
//! claim with the greatest time; among claims of one identity with the same
//! time, the one that was stored last. The type filter is applied to the
//! current claims only: a current claim of another content type hides the
//! identity's older claims of the filtered type, and the identity is not
//! counted.

use vstd::prelude::*;

use crate::error::StoreError;
use crate::model::{bytes_equal, PointerView, PublicKeyView, Reference, ReferenceView};
use crate::store::{
    check_native, check_pointer, fits_native, pointer_fits, BytesLinkView, EventId,
    EventLinkView, Store, Relations,
};

verus! {

/// Whether the numbers of a query fit the store: those of a pointer
/// subject, and the type filter if there is one.
pub open spec fn query_fits(subject: ReferenceView, type_filter: Option<u64>) -> bool {
    &&& subject matches ReferenceView::Pointer(pointer) ==> pointer_fits(pointer)
    &&& type_filter matches Some(content_type) ==> fits_native(content_type)
}

/// The fault for which a query is refused before any row is read:
/// `UnsupportedReferenceKind` for a reserved subject, else `RangeError` if
/// a number of the query does not fit the store.
pub open spec fn query_fault(subject: ReferenceView, type_filter: Option<u64>) -> Option<
    StoreError,
> {
    if subject is Reserved {
        Some(StoreError::UnsupportedReferenceKind)
    } else if !query_fits(subject, type_filter) {
        Some(StoreError::RangeError)
    } else {
        None
    }
}

impl Relations {
    /// Whether the event with this id has a link to the subject, in the
    /// relation that holds subjects of its kind.
    pub open spec fn links_to(self, event_id: nat, subject: ReferenceView) -> bool {
        match subject {
            ReferenceView::Pointer(pointer) => self.event_links.contains(
                EventLinkView { event_id, subject: pointer },
            ),
            ReferenceView::Bytes(bytes) => self.byte_links.contains(
                BytesLinkView { event_id, subject_bytes: bytes },
            ),
            ReferenceView::Reserved { .. } => false,
        }
    }

    /// Whether the last-write-wins element at position `r` is a claim
    /// about the subject.
    pub open spec fn is_claim(self, subject: ReferenceView, r: int) -> bool {
        0 <= r < self.lww_elements.len() && self.links_to(self.lww_elements[r].event_id, subject)
    }

    /// The identity that wrote the event of the element at position `r`.
    pub open spec fn author(self, r: int) -> PublicKeyView {
        self.events[self.lww_elements[r].event_id as int].key.system
    }

    /// The content type of the event of the element at position `r`.
    pub open spec fn claimed_type(self, r: int) -> u64 {
        self.events[self.lww_elements[r].event_id as int].content_type
    }

    /// Whether the element at `later` wins over the element at `earlier`:
    /// it has the greater time, or the same time and was stored later.
    pub open spec fn overrides(self, later: int, earlier: int) -> bool {
        let new = self.lww_elements[later].unix_milliseconds;
        let old = self.lww_elements[earlier].unix_milliseconds;
        new > old || (new == old && later > earlier)
    }

    /// Whether `other` is a claim about the subject, by the author of the
    /// element at `r`, that wins over it.
    pub open spec fn beats(self, subject: ReferenceView, other: int, r: int) -> bool {
        &&& self.is_claim(subject, other)
        &&& self.author(other) == self.author(r)
        &&& self.overrides(other, r)
    }

    /// Whether the element at `r` is the current claim of its author about
    /// the subject.
    pub open spec fn is_current_claim(self, subject: ReferenceView, r: int) -> bool {
        &&& self.is_claim(subject, r)
        &&& forall|other: int| !#[trigger] self.beats(subject, other, r)
    }

    /// Whether the element at `r` is a current claim that holds the target
    /// value and passes the type filter.
    pub open spec fn is_counted(
        self,
        subject: ReferenceView,
        target_value: Seq<u8>,
        type_filter: Option<u64>,
        r: int,
    ) -> bool {
        &&& self.is_current_claim(subject, r)
        &&& self.lww_elements[r].value == target_value
        &&& type_filter matches Some(content_type) ==> self.claimed_type(r) == content_type
    }

    /// The positions of the counted claims: one for each identity whose
    /// current claim holds the target value and passes the type filter.
    pub open spec fn counted_claims(
        self,
        subject: ReferenceView,
        target_value: Seq<u8>,
        type_filter: Option<u64>,
    ) -> Set<int> {
        Set::new(|r: int| self.is_counted(subject, target_value, type_filter, r))
    }

    /// The counted claims at positions below `bound`.
    pub open spec fn counted_below(
        self,
        subject: ReferenceView,
        target_value: Seq<u8>,
        type_filter: Option<u64>,
        bound: int,
    ) -> Set<int> {
        Set::new(|r: int| r < bound && self.is_counted(subject, target_value, type_filter, r))
    }

    /// What `count_matching_latest` returns: the fault of the query if it
    /// has one, else the number of counted claims.
    pub open spec fn count_matching_latest(
        self,
        subject: ReferenceView,
        target_value: Seq<u8>,
        type_filter: Option<u64>,
    ) -> Result<nat, StoreError> {
        match query_fault(subject, type_filter) {
            Some(fault) => Err(fault),
            None => Ok(self.counted_claims(subject, target_value, type_filter).len()),
        }
    }
}

/// The counted claims below a bound are finitely many, no more than the
/// bound, and grow by at most the position `bound` when the bound does.
proof fn lemma_counted_below_step(
    s: Relations,
    subject: ReferenceView,
    target_value: Seq<u8>,
    type_filter: Option<u64>,
    bound: int,
)
    requires
        0 <= bound,
    ensures
        s.counted_below(subject, target_value, type_filter, bound).finite(),
        s.counted_below(subject, target_value, type_filter, bound).len() <= bound,
        s.counted_below(subject, target_value, type_filter, bound + 1) == if s.is_counted(
            subject,
            target_value,
            type_filter,
            bound,
        ) {
            s.counted_below(subject, target_value, type_filter, bound).insert(bound)
        } else {
            s.counted_below(subject, target_value, type_filter, bound)
        },
    decreases bound,
{
    let below = s.counted_below(subject, target_value, type_filter, bound);
    let next = s.counted_below(subject, target_value, type_filter, bound + 1);
    if bound == 0 {
        assert(below =~= Set::empty());
    } else {
        lemma_counted_below_step(s, subject, target_value, type_filter, bound - 1);
    }
    if s.is_counted(subject, target_value, type_filter, bound) {
        assert(next =~= below.insert(bound));
    } else {
        assert(next =~= below);
    }
}

/// Every counted claim lies below the number of stored elements.
proof fn lemma_counted_below_all(
    s: Relations,
    subject: ReferenceView,
    target_value: Seq<u8>,
    type_filter: Option<u64>,
)
    ensures
        s.counted_below(subject, target_value, type_filter, s.lww_elements.len() as int)
            == s.counted_claims(subject, target_value, type_filter),
{
    assert(s.counted_below(subject, target_value, type_filter, s.lww_elements.len() as int)
        =~= s.counted_claims(subject, target_value, type_filter));
}

impl Store {
    /// Decides whether an event has a link to the subject.
    fn links_to(&self, event_id: EventId, subject: &Reference) -> (found: bool)
        ensures
            found == self@.links_to(event_id as nat, subject@),
    {
        match subject {
            Reference::Pointer(pointer) => {
                let ghost wanted = EventLinkView { event_id: event_id as nat, subject: pointer@ };
                let n = self.event_link_count();
                let mut l: usize = 0;
                while l < n
                    invariant
                        n == self@.event_links.len(),
                        l <= n,
                        subject@ == ReferenceView::Pointer(pointer@),
                        wanted == (EventLinkView { event_id: event_id as nat, subject: pointer@ }),
                        forall|k: int| 0 <= k < l ==> self@.event_links[k] != wanted,
                    decreases n - l,
                {
                    let row = self.event_link(l);
                    if row.event_id == event_id && row.subject == *pointer {
                        assert(self@.event_links[l as int] == wanted);
                        return true;
                    }
                    l += 1;
                }
                false
            },
            Reference::Bytes(bytes) => {
                let ghost wanted = BytesLinkView {
                    event_id: event_id as nat,
                    subject_bytes: bytes@,
                };
                let n = self.byte_link_count();
                let mut l: usize = 0;
                while l < n
                    invariant
                        n == self@.byte_links.len(),
                        l <= n,
                        subject@ == ReferenceView::Bytes(bytes@),
                        wanted == (BytesLinkView {
                            event_id: event_id as nat,
                            subject_bytes: bytes@,
                        }),
                        forall|k: int| 0 <= k < l ==> self@.byte_links[k] != wanted,
                    decreases n - l,
                {
                    let row = self.byte_link(l);
                    if row.event_id == event_id && bytes_equal(&row.subject_bytes, bytes) {
                        assert(self@.byte_links[l as int] == wanted);
                        return true;
                    }
                    l += 1;
                }
                false
            },
            Reference::Reserved { .. } => false,
        }
    }

    /// Marks, for each stored element, whether it is a claim about the
    /// subject.
    fn claims(&self, subject: &Reference) -> (marks: Vec<bool>)
        ensures
            marks.len() == self@.lww_elements.len(),
            forall|r: int| 0 <= r < marks.len() ==> marks[r] == self@.is_claim(subject@, r),
    {
        let n = self.lww_element_count();
        let mut marks: Vec<bool> = Vec::new();
        let mut r: usize = 0;
        while r < n
            invariant
                n == self@.lww_elements.len(),
                r <= n,
                marks.len() == r,
                forall|k: int| 0 <= k < r ==> marks[k] == self@.is_claim(subject@, k),
            decreases n - r,
        {
            let found = self.links_to(self.lww_element(r).event_id, subject);
            marks.push(found);
            r += 1;
        }
        marks
    }

    /// Decides whether another claim of the same author wins over the
    /// element at `r`.
    fn is_beaten(&self, marks: &Vec<bool>, r: usize, Ghost(subject): Ghost<ReferenceView>) -> (beaten:
        bool)
        requires
            self.wf(),
            marks.len() == self@.lww_elements.len(),
            forall|k: int| 0 <= k < marks.len() ==> marks[k] == self@.is_claim(subject, k),
            r < marks.len(),
        ensures
            beaten == exists|other: int| self@.beats(subject, other, r as int),
    {
        let n = self.lww_element_count();
        let mine = self.lww_element(r);
        let me = &self.event(mine.event_id).key.system;
        let mut other: usize = 0;
        while other < n
            invariant
                self.wf(),
                n == self@.lww_elements.len(),
                marks.len() == n,
                forall|k: int| 0 <= k < n ==> marks[k] == self@.is_claim(subject, k),
                r < n,
                other <= n,
                mine@ == self@.lww_elements[r as int],
                me@ == self@.author(r as int),
                forall|k: int| 0 <= k < other ==> !self@.beats(subject, k, r as int),
            decreases n - other,
        {
            if marks[other] {
                let theirs = self.lww_element(other);
                let wins = theirs.unix_milliseconds > mine.unix_milliseconds || (
                theirs.unix_milliseconds == mine.unix_milliseconds && other > r);
                if wins && self.event(theirs.event_id).key.system == *me {
                    assert(self@.beats(subject, other as int, r as int));
                    return true;
                }
            }
            other += 1;
        }
        false
    }

    /// Counts the identities whose current claim about `subject` is
    /// `target_value`.
    ///
    /// Each identity that wrote a claim about the subject has one current
    /// claim: the one with the greatest time, and of those with that time
    /// the one stored last. With a type filter, a current claim counts only
    /// if its event has that content type; the filter does not change
    /// which claim is current. The store is not changed.
    ///
    /// Fails with `UnsupportedReferenceKind` for a reserved subject, else
    /// with `RangeError` if the key type or the logical clock of a pointer
    /// subject, or the type filter, does not fit the store.
    pub fn count_matching_latest(
        &self,
        subject: &Reference,
        target_value: &Vec<u8>,
        type_filter: Option<u64>,
    ) -> (count: Result<u64, StoreError>)
        requires
            self.wf(),
        ensures
            match self@.count_matching_latest(subject@, target_value@, type_filter) {
                Ok(expected) => count matches Ok(found) && found == expected,
                Err(fault) => count == Err::<u64, StoreError>(fault),
            },
    {
        match subject {
            Reference::Reserved { .. } => {
                return Err(StoreError::UnsupportedReferenceKind);
            },
            Reference::Pointer(pointer) => {
                if !check_pointer(pointer) {
                    return Err(StoreError::RangeError);
                }
            },
            Reference::Bytes(_) => {},
        }
        if let Some(content_type) = type_filter {
            if !check_native(content_type) {
                return Err(StoreError::RangeError);
            }
        }
        let marks = self.claims(subject);
        let n = self.lww_element_count();
        let mut count: u64 = 0;
        let mut r: usize = 0;
        proof {
            lemma_counted_below_step(self@, subject@, target_value@, type_filter, 0);
        }
        while r < n
            invariant
                self.wf(),
                n == self@.lww_elements.len(),
                marks.len() == n,
                forall|k: int| 0 <= k < n ==> marks[k] == self@.is_claim(subject@, k),
                r <= n,
                count <= r,
                count == self@.counted_below(subject@, target_value@, type_filter, r as int).len(),
            decreases n - r,
        {
            proof {
                lemma_counted_below_step(self@, subject@, target_value@, type_filter, r as int);
            }
            if marks[r] && !self.is_beaten(&marks, r, Ghost(subject@)) {
                let row = self.lww_element(r);
                let passes = match type_filter {
                    Some(content_type) => self.event(row.event_id).content_type == content_type,
                    None => true,
                };
                if passes && bytes_equal(&row.value, target_value) {
                    count += 1;
                }
            }
            r += 1;
        }
        proof {
            lemma_counted_below_all(self@, subject@, target_value@, type_filter);
        }
        Ok(count)
    }
}

/// What a query returns when it counts no claim: its fault if it has one,
/// else zero.
pub open spec fn zero_or_fault(subject: ReferenceView, type_filter: Option<u64>) -> Result<
    nat,
    StoreError,
> {
    match query_fault(subject, type_filter) {
        Some(fault) => Err(fault),
        None => Ok(0),
    }
}

/// A subject about which no claim is stored is asserted by nobody: the
/// count is zero for every target value and every type filter. This holds
/// of every subject in a store without rows.
pub proof fn lemma_no_claim_counts_zero(
    s: Relations,
    subject: ReferenceView,
    target_value: Seq<u8>,
    type_filter: Option<u64>,
)
    requires
        forall|r: int| !s.is_claim(subject, r),
    ensures
        s.count_matching_latest(subject, target_value, type_filter) == zero_or_fault(
            subject,
            type_filter,
        ),
{
    assert(s.counted_claims(subject, target_value, type_filter) =~= Set::empty());
}

/// A claim that another claim of the same identity about the same subject
/// wins over is never counted, whatever the target value and the type
/// filter: only the latest claim of an identity can count.
pub proof fn lemma_overridden_claim_not_counted(
    s: Relations,
    subject: ReferenceView,
    target_value: Seq<u8>,
    type_filter: Option<u64>,
    earlier: int,
    later: int,
)
    requires
        s.is_claim(subject, earlier),
        s.is_claim(subject, later),
        s.author(earlier) == s.author(later),
        s.overrides(later, earlier),
    ensures
        !s.is_current_claim(subject, earlier),
        !s.counted_claims(subject, target_value, type_filter).contains(earlier),
{
    assert(s.beats(subject, later, earlier));
}

/// No identity has two current claims about one subject, so no identity
/// is counted twice.
pub proof fn lemma_one_current_claim_per_identity(
    s: Relations,
    subject: ReferenceView,
    a: int,
    b: int,
)
    requires
        s.is_current_claim(subject, a),
        s.is_current_claim(subject, b),
        s.author(a) == s.author(b),
    ensures
        a == b,
{
    if a != b {
        assert(s.overrides(a, b) || s.overrides(b, a));
        assert(s.beats(subject, a, b) || s.beats(subject, b, a));
    }
}

/// Among the claims of the author of `r` about the subject, one that wins
/// over or is `r` and that none of the claims below `bound` wins over.
proof fn latest_claim_below(s: Relations, subject: ReferenceView, r: int, bound: int) -> (latest:
    int)
    requires
        s.is_claim(subject, r),
        0 <= bound,
    ensures
        s.is_claim(subject, latest),
        s.author(latest) == s.author(r),
        latest == r || s.overrides(latest, r),
        forall|other: int| other < bound ==> !#[trigger] s.beats(subject, other, latest),
    decreases bound,
{
    if bound == 0 {
        r
    } else {
        let before = latest_claim_below(s, subject, r, bound - 1);
        if s.beats(subject, bound - 1, before) {
            let latest = bound - 1;
            assert forall|other: int| other < bound implies !#[trigger] s.beats(
                subject,
                other,
                latest,
            ) by {
                if s.beats(subject, other, latest) {
                    assert(s.beats(subject, other, before));
                }
            }
            latest
        } else {
            before
        }
    }
}

/// Every identity that wrote a claim about a subject has a current claim
/// about it, which is that claim or one that wins over it.
pub proof fn lemma_current_claim_exists(s: Relations, subject: ReferenceView, r: int) -> (current:
    int)
    requires
        s.is_claim(subject, r),
    ensures
        s.is_current_claim(subject, current),
        s.author(current) == s.author(r),
        current == r || s.overrides(current, r),
{
    let current = latest_claim_below(s, subject, r, s.lww_elements.len() as int);
    assert forall|other: int| !#[trigger] s.beats(subject, other, current) by {
        if s.beats(subject, other, current) {
            assert(other < s.lww_elements.len());
        }
    }
    current
}

/// A type filter that none of the current claims about a subject passes
/// gives the count zero, whatever the count without the filter.
pub proof fn lemma_unmatched_filter_counts_zero(
    s: Relations,
    subject: ReferenceView,
    target_value: Seq<u8>,
    content_type: u64,
)
    requires
        forall|r: int| s.is_current_claim(subject, r) ==> s.claimed_type(r) != content_type,
    ensures
        s.count_matching_latest(subject, target_value, Some(content_type)) == zero_or_fault(
            subject,
            Some(content_type),
        ),
{
    assert(s.counted_claims(subject, target_value, Some(content_type)) =~= Set::empty());
}

/// The links to events play no part in a query about a bytes subject:
/// stores that differ in them alone give the same answer, whatever bytes
/// those links hold.
pub proof fn lemma_bytes_subject_ignores_event_links(
    s: Relations,
    t: Relations,
    bytes: Seq<u8>,
    target_value: Seq<u8>,
    type_filter: Option<u64>,
)
    requires
        s.events == t.events,
        s.lww_elements == t.lww_elements,
        s.byte_links == t.byte_links,
    ensures
        s.count_matching_latest(ReferenceView::Bytes(bytes), target_value, type_filter)
            == t.count_matching_latest(ReferenceView::Bytes(bytes), target_value, type_filter),
{
    let subject = ReferenceView::Bytes(bytes);
    assert forall|r: int|
        s.is_counted(subject, target_value, type_filter, r) == t.is_counted(
            subject,
            target_value,
            type_filter,
            r,
        ) by {
        assert forall|other: int| s.beats(subject, other, r) == t.beats(subject, other, r) by {}
    }
    assert(s.counted_claims(subject, target_value, type_filter) =~= t.counted_claims(
        subject,
        target_value,
        type_filter,
    ));
}

/// The links to outside content play no part in a query about a pointer
/// subject: stores that differ in them alone give the same answer,
/// whatever bytes those links hold.
pub proof fn lemma_pointer_subject_ignores_byte_links(
    s: Relations,
    t: Relations,
    pointer: PointerView,
    target_value: Seq<u8>,
    type_filter: Option<u64>,
)
    requires
        s.events == t.events,
        s.lww_elements == t.lww_elements,
        s.event_links == t.event_links,
    ensures
        s.count_matching_latest(ReferenceView::Pointer(pointer), target_value, type_filter)
            == t.count_matching_latest(ReferenceView::Pointer(pointer), target_value, type_filter),
{
    let subject = ReferenceView::Pointer(pointer);
    assert forall|r: int|
        s.is_counted(subject, target_value, type_filter, r) == t.is_counted(
            subject,
            target_value,
            type_filter,
            r,
        ) by {
        assert forall|other: int| s.beats(subject, other, r) == t.beats(subject, other, r) by {}
    }
    assert(s.counted_claims(subject, target_value, type_filter) =~= t.counted_claims(
        subject,
        target_value,
        type_filter,
    ));
}

/// The answer to a query is a function of the stored rows and the query:
/// asked again of a store that holds the same rows, the query gives the
/// same answer.
pub proof fn lemma_count_repeats(
    first: Store,
    second: Store,
    subject: ReferenceView,
    target_value: Seq<u8>,
    type_filter: Option<u64>,
)
    requires
        first@ == second@,
    ensures
        first@.count_matching_latest(subject, target_value, type_filter)
            == second@.count_matching_latest(subject, target_value, type_filter),
{
}

} // verus!
